use vstd::prelude::*;
use crate::consts::KEY_LAYOUT;

verus! {

/// The sixteen keys of the keypad; `keys[k]` holds while key `k` is down.
#[verifier::ext_equal]
pub struct Keypad {
    pub keys: [bool; 16],
}

impl View for Keypad {
    type V = Seq<bool>;

    open spec fn view(&self) -> Seq<bool> {
        self.keys@
    }
}

impl Keypad {
    /// A keypad with every key up.
    pub fn new() -> (pad: Keypad)
        ensures
            pad@ == Seq::new(16, |k: int| false),
    {
        Keypad { keys: [false; 16] }
    }

    /// Records that key `index` went down.
    pub fn key_down(&mut self, index: u8)
        requires
            index < 16,
        ensures
            final(self)@ == old(self)@.update(index as int, true),
    {
        self.keys[index as usize] = true;
    }

    /// Records that key `index` went up.
    pub fn key_up(&mut self, index: u8)
        requires
            index < 16,
        ensures
            final(self)@ == old(self)@.update(index as int, false),
    {
        self.keys[index as usize] = false;
    }

    /// Whether key `index` is down.
    pub fn is_key_down(&self, index: u8) -> (down: bool)
        requires
            index < 16,
        ensures
            down == self@[index as int],
    {
        self.keys[index as usize]
    }
}

/// The key of the keypad that a key of the host's keyboard stands for, if it
/// stands for one. `keycode` is the code point of the character that the key
/// types unshifted. The keys 1 2 3 4, Q W E R, A S D F and Z X C V lie as the
/// four rows of the keypad do: 1 2 3 C, 4 5 6 D, 7 8 9 E and A 0 B F.
pub fn keycode_map(keycode: i32) -> (key: Option<u8>)
    ensures
        match key {
            Some(k) => k < 16 && KEY_LAYOUT[k as int] == keycode,
            None => forall|k: int| 0 <= k < 16 ==> KEY_LAYOUT[k] != keycode,
        },
{
    match keycode {
        49 => Some(0x1),
        50 => Some(0x2),
        51 => Some(0x3),
        52 => Some(0xc),
        113 => Some(0x4),
        119 => Some(0x5),
        101 => Some(0x6),
        114 => Some(0xd),
        97 => Some(0x7),
        115 => Some(0x8),
        100 => Some(0x9),
        102 => Some(0xe),
        122 => Some(0xa),
        120 => Some(0x0),
        99 => Some(0xb),
        118 => Some(0xf),
        _ => None,
    }
}

} // verus!

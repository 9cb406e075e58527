//! The input device: 16 independent boolean key states addressed by a
//! 4-bit key id (hex keypad layout `0`..`F`). The external input adapter
//! mutates the states between cycles; the CPU only reads them.

use vstd::prelude::*;

verus! {

broadcast use vstd::array::group_array_axioms;

/// Number of keys on the hex keypad.
pub const KEY_COUNT: usize = 16;

/// One key of the hex keypad.
///
/// Physical layout:
/// ```text
/// 1 2 3 C
/// 4 5 6 D
/// 7 8 9 E
/// A 0 B F
/// ```
#[derive(Clone, Copy, Debug, PartialEq, Eq, Structural)]
pub enum HexKey {
    X0,
    X1,
    X2,
    X3,
    X4,
    X5,
    X6,
    X7,
    X8,
    X9,
    Xa,
    Xb,
    Xc,
    Xd,
    Xe,
    Xf,
}

impl HexKey {
    /// The key's 4-bit id.
    pub open spec fn key_id(self) -> int {
        match self {
            HexKey::X0 => 0x0,
            HexKey::X1 => 0x1,
            HexKey::X2 => 0x2,
            HexKey::X3 => 0x3,
            HexKey::X4 => 0x4,
            HexKey::X5 => 0x5,
            HexKey::X6 => 0x6,
            HexKey::X7 => 0x7,
            HexKey::X8 => 0x8,
            HexKey::X9 => 0x9,
            HexKey::Xa => 0xa,
            HexKey::Xb => 0xb,
            HexKey::Xc => 0xc,
            HexKey::Xd => 0xd,
            HexKey::Xe => 0xe,
            HexKey::Xf => 0xf,
        }
    }

    /// The key with the given 4-bit id.
    pub fn from_index(index: u8) -> (k: HexKey)
        requires
            index < KEY_COUNT,
        ensures
            k.key_id() == index,
    {
        match index {
            0x0 => HexKey::X0,
            0x1 => HexKey::X1,
            0x2 => HexKey::X2,
            0x3 => HexKey::X3,
            0x4 => HexKey::X4,
            0x5 => HexKey::X5,
            0x6 => HexKey::X6,
            0x7 => HexKey::X7,
            0x8 => HexKey::X8,
            0x9 => HexKey::X9,
            0xa => HexKey::Xa,
            0xb => HexKey::Xb,
            0xc => HexKey::Xc,
            0xd => HexKey::Xd,
            0xe => HexKey::Xe,
            _ => HexKey::Xf,
        }
    }

    /// The key's 4-bit id, as a byte.
    pub fn index(self) -> (i: u8)
        ensures
            i == self.key_id(),
    {
        match self {
            HexKey::X0 => 0x0,
            HexKey::X1 => 0x1,
            HexKey::X2 => 0x2,
            HexKey::X3 => 0x3,
            HexKey::X4 => 0x4,
            HexKey::X5 => 0x5,
            HexKey::X6 => 0x6,
            HexKey::X7 => 0x7,
            HexKey::X8 => 0x8,
            HexKey::X9 => 0x9,
            HexKey::Xa => 0xa,
            HexKey::Xb => 0xb,
            HexKey::Xc => 0xc,
            HexKey::Xd => 0xd,
            HexKey::Xe => 0xe,
            HexKey::Xf => 0xf,
        }
    }
}

/// The 16 key states. The view is the sequence of pressed-flags indexed by
/// key id.
#[derive(Debug)]
pub struct Keyboard {
    keys: [bool; 16],
}

impl View for Keyboard {
    type V = Seq<bool>;

    closed spec fn view(&self) -> Seq<bool> {
        self.keys@
    }
}

impl Keyboard {
    /// A keyboard with every key released.
    pub fn new() -> (k: Keyboard)
        ensures
            k@ == Seq::new(KEY_COUNT as nat, |i: int| false),
    {
        let k = Keyboard { keys: [false; 16] };
        proof {
            assert(k@ =~= Seq::new(KEY_COUNT as nat, |i: int| false));
        }
        k
    }

    /// Records that `key` went down (`pressed`) or up (`!pressed`).
    pub fn update_key(&mut self, key: HexKey, pressed: bool)
        ensures
            final(self)@ == old(self)@.update(key.key_id(), pressed),
    {
        self.keys[key.index() as usize] = pressed;
    }

    /// Whether `key` is currently pressed.
    pub fn get_pressed(&self, key: HexKey) -> (p: bool)
        ensures
            p == self@[key.key_id()],
    {
        self.keys[key.index() as usize]
    }
}

} // verus!

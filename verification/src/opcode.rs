//! Splitting an opcode byte into the bit fields by which Z80-style
//! instruction sets are laid out.

use vstd::prelude::*;

verus! {

/// The five fields of one opcode byte.
///
/// `x` is bits 7-6, `y` bits 5-3 and `z` bits 2-0; `p` is bits 5-4 and `q`
/// bit 3, so `y` is `2 * p + q`.
#[derive(Clone, Copy, Debug, PartialEq, Eq, Structural)]
pub struct Opcode {
    pub x: u8,
    pub y: u8,
    pub z: u8,
    pub p: u8,
    pub q: u8,
}

impl Opcode {
    /// The fields of `byte`, by arithmetic on its value.
    pub open spec fn of(byte: u8) -> Opcode {
        Opcode {
            x: byte / 64,
            y: (byte / 8) % 8,
            z: byte % 8,
            p: ((byte / 8) % 8) / 2,
            q: ((byte / 8) % 8) % 2,
        }
    }

    /// Every field lies in the range of its bits, and `p`, `q` are the two
    /// halves of `y`.
    pub open spec fn wf(self) -> bool {
        &&& self.x <= 3
        &&& self.y <= 7
        &&& self.z <= 7
        &&& self.p <= 3
        &&& self.q <= 1
        &&& self.p * 2 + self.q == self.y
    }

    /// The byte that has these fields.
    pub open spec fn byte(self) -> int {
        self.x * 64 + self.y * 8 + self.z
    }
}

impl From<u8> for Opcode {
    fn from(opcode: u8) -> (ret: Opcode) {
        let x: u8 = opcode >> 6;
        let y: u8 = 0b111 & (opcode >> 3);
        let z: u8 = 0b111 & opcode;
        let p: u8 = y >> 1;
        let q: u8 = y % 2;
        assert(opcode >> 6 == opcode / 64) by (bit_vector);
        assert(0b111u8 & (opcode >> 3) == (opcode / 8) % 8) by (bit_vector);
        assert(0b111u8 & opcode == opcode % 8) by (bit_vector);
        assert(y >> 1 == y / 2) by (bit_vector);
        Opcode { x, y, z, p, q }
    }
}

impl vstd::std_specs::convert::FromSpecImpl<u8> for Opcode {
    open spec fn obeys_from_spec() -> bool {
        true
    }

    open spec fn from_spec(opcode: u8) -> Opcode {
        Opcode::of(opcode)
    }
}

/// Splits `byte` into its fields. Total: every byte has a decomposition.
pub fn decompose(byte: u8) -> (opcode: Opcode)
    ensures
        opcode == Opcode::of(byte),
        opcode.wf(),
        opcode.byte() == byte,
{
    proof {
        lemma_fields_in_range(byte);
    }
    Opcode::from(byte)
}

/// For every byte, `p * 2 + q == y`, each field lies within the range of
/// its bits, and the fields put together give the byte back.
pub proof fn lemma_fields_in_range(byte: u8)
    ensures
        Opcode::of(byte).p * 2 + Opcode::of(byte).q == Opcode::of(byte).y,
        Opcode::of(byte).x <= 3,
        Opcode::of(byte).y <= 7,
        Opcode::of(byte).z <= 7,
        Opcode::of(byte).p <= 3,
        Opcode::of(byte).q <= 1,
        Opcode::of(byte).byte() == byte,
{
}

} // verus!

//! Error correction levels.
use crate::bits::{append, int_bits, BitVec};
use vstd::prelude::*;

verus! {

/// Error correction level: the share of a symbol that may be damaged and
/// still be recovered.
#[derive(Debug, Copy, Clone, PartialEq, Eq, Structural)]
pub enum ECLevel {
    /// Recovers about 7% of the data.
    L,
    /// Recovers about 15% of the data.
    M,
    /// Recovers about 25% of the data.
    Q,
    /// Recovers about 30% of the data.
    H,
}

impl ECLevel {
    /// Position of the level in the tables: L, M, Q, H are 0, 1, 2, 3.
    pub open spec fn idx(self) -> int {
        match self {
            ECLevel::L => 0,
            ECLevel::M => 1,
            ECLevel::Q => 2,
            ECLevel::H => 3,
        }
    }

    /// The two bits that name the level in the format information. They do
    /// not follow the table order: L is 01, M is 00, Q is 11, H is 10.
    pub open spec fn wire(self) -> int {
        match self {
            ECLevel::L => 1,
            ECLevel::M => 0,
            ECLevel::Q => 3,
            ECLevel::H => 2,
        }
    }

    /// Position of the level in the tables.
    pub fn index(&self) -> (r: usize)
        ensures
            r == self.idx(),
            r < 4,
    {
        match self {
            ECLevel::L => 0,
            ECLevel::M => 1,
            ECLevel::Q => 2,
            ECLevel::H => 3,
        }
    }

    /// Returns the bit encoding. It is not the same as the enum order.
    pub fn to_bitvec(&self) -> (r: BitVec)
        ensures
            r@ == int_bits(self.wire() as u32, 2),
    {
        let mut bv = BitVec::new();
        append(&mut bv, self.wire_bits(), 2);
        assert(bv@ =~= int_bits(self.wire() as u32, 2));
        bv
    }

    /// The level's two wire bits as a number.
    pub fn wire_bits(&self) -> (r: u32)
        ensures
            r == self.wire(),
            r < 4,
    {
        match self {
            ECLevel::L => 1,
            ECLevel::M => 0,
            ECLevel::Q => 3,
            ECLevel::H => 2,
        }
    }
}

} // verus!

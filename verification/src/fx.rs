//! One effect command slot: a command byte and a value byte.  The sentinel
//! command `0xFF` marks an empty slot.

use crate::reader::Reader;
use crate::writer::{preserved_outside, Writer};
use vstd::prelude::*;

verus! {

broadcast use crate::reader::lemma_reader_pos_nonneg, crate::reader::lemma_reader_data_bound, crate::writer::lemma_writer_pos_nonneg, crate::writer::lemma_writer_data_bound;

/// Size in bytes of one effect slot.
pub const FX_SIZE: usize = 2;

/// One effect command with its parameter value.
#[derive(PartialEq, Eq, Structural, Clone, Copy, Debug)]
pub struct FX {
    pub command: u8,
    pub value: u8,
}

/// The two bytes at `p` hold exactly this effect slot.
pub open spec fn fx_matches(b: Seq<u8>, p: int, f: FX) -> bool {
    &&& f.command == b[p]
    &&& f.value == b[p + 1]
}

/// The empty effect slot.
pub open spec fn fx_default() -> FX {
    FX { command: 0xFF, value: 0 }
}

impl Default for FX {
    /// An empty effect slot.
    fn default() -> (r: Self)
        ensures
            r == fx_default(),
    {
        Self { command: 0xFF, value: 0 }
    }
}

impl FX {
    /// Parse one effect slot.
    pub fn from_reader(reader: &mut Reader) -> (r: FX)
        requires
            old(reader).spec_pos() + 2 <= old(reader).data().len(),
        ensures
            final(reader).data() == old(reader).data(),
            final(reader).spec_pos() == old(reader).spec_pos() + 2,
            fx_matches(old(reader).data(), old(reader).spec_pos(), r),
    {
        let command = reader.read();
        let value = reader.read();
        FX { command, value }
    }

    /// Serialize one effect slot.
    pub fn write(self, w: &mut Writer)
        requires
            old(w).spec_pos() + 2 <= old(w).data().len(),
        ensures
            final(w).data().len() == old(w).data().len(),
            final(w).spec_pos() == old(w).spec_pos() + 2,
            preserved_outside(
                old(w).data(),
                final(w).data(),
                old(w).spec_pos(),
                old(w).spec_pos() + 2,
            ),
            fx_matches(final(w).data(), old(w).spec_pos(), self),
    {
        w.write(self.command);
        w.write(self.value);
    }

    /// An effect slot is empty exactly when its command byte is the `0xFF`
    /// sentinel.
    pub fn is_empty(self) -> (r: bool)
        ensures
            r == (self.command == 0xFF),
    {
        self.command == 0xFF
    }
}

} // verus!

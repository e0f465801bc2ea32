//! Three-part format version tag embedded at a fixed prefix of every file
//! kind, and the `at_least` comparison every downstream codec consults to
//! select a layout variant.

use crate::reader::{M8Result, Reader};
use crate::writer::Writer;
use vstd::prelude::*;

verus! {

broadcast use crate::reader::lemma_reader_pos_nonneg, crate::reader::lemma_reader_data_bound, crate::writer::lemma_writer_pos_nonneg, crate::writer::lemma_writer_data_bound;

/// Size in bytes of the version block at the start of every file kind.
pub const VERSION_SIZE: usize = 14;

/// A format revision tag.  Ordering is by `(major, minor)`; `patch` is never
/// compared.
#[derive(PartialEq, Eq, Structural, Clone, Copy, Debug)]
pub struct Version {
    pub major: u8,
    pub minor: u8,
    pub patch: u8,
}

impl Default for Version {
    /// The newest fully supported format revision.
    fn default() -> (r: Self)
        ensures
            r.major == 4 && r.minor == 0 && r.patch == 0,
    {
        Self { major: 4, minor: 0, patch: 0 }
    }
}

/// Each part of the tag fits the nibble it is stored in.
pub open spec fn version_wf(v: Version) -> bool {
    v.major <= 0x0F && v.minor <= 0x0F && v.patch <= 0x0F
}

/// The version tag a buffer holds at position `p`: ten ignored bytes, then
/// one byte packing `(minor << 4) | patch`, then the major part in the low
/// nibble of the next byte, then two reserved bytes.
pub open spec fn version_at(b: Seq<u8>, p: int) -> Version {
    Version {
        major: b[p + 11] & 0x0F,
        minor: (b[p + 10] >> 4) & 0x0F,
        patch: b[p + 10] & 0x0F,
    }
}

impl Version {
    /// True when this version is `major.minor` or newer, ignoring `patch`.
    pub open spec fn spec_at_least(&self, major: u8, minor: u8) -> bool {
        self.major > major || (self.major == major && self.minor >= minor)
    }

    /// True when this version is `major.minor` or newer, ignoring `patch`.
    #[verifier::when_used_as_spec(spec_at_least)]
    pub fn at_least(&self, major: u8, minor: u8) -> (r: bool)
        ensures
            r == self.spec_at_least(major, minor),
    {
        self.major > major || (self.major == major && self.minor >= minor)
    }

    /// Write the two packed tag bytes and the two reserved bytes.
    pub fn write(&self, w: &mut Writer)
        requires
            version_wf(*self),
            old(w).spec_pos() + 4 <= old(w).data().len(),
        ensures
            final(w).data().len() == old(w).data().len(),
            final(w).spec_pos() == old(w).spec_pos() + 4,
            crate::writer::preserved_outside(
                old(w).data(),
                final(w).data(),
                old(w).spec_pos(),
                old(w).spec_pos() + 4,
            ),
            version_at(final(w).data(), old(w).spec_pos() - 10) == *self,
            final(w).data()[old(w).spec_pos()] == ((self.minor << 4) | self.patch),
            final(w).data()[old(w).spec_pos() + 1] == self.major,
            final(w).data()[old(w).spec_pos() + 2] == 0,
            final(w).data()[old(w).spec_pos() + 3] == 0,
    {
        w.write((self.minor << 4) | self.patch);
        w.write(self.major);
        w.write(0);
        w.write(0);
        proof {
            let lsb: u8 = w.data()[old(w).spec_pos()];
            let msb: u8 = w.data()[old(w).spec_pos() + 1];
            let ma = self.major;
            let mi = self.minor;
            let pa = self.patch;
            assert(msb & 0x0F == ma) by (bit_vector)
                requires
                    msb == ma,
                    ma <= 0x0F,
            ;
            assert((lsb >> 4) & 0x0F == mi && lsb & 0x0F == pa) by (bit_vector)
                requires
                    lsb == (mi << 4) | pa,
                    mi <= 0x0F,
                    pa <= 0x0F,
            ;
        }
    }

    /// Decode the version block at the current position, advancing past all
    /// fourteen bytes.
    pub fn from_reader(reader: &mut Reader) -> (r: M8Result<Self>)
        requires
            old(reader).spec_pos() + 14 <= old(reader).data().len(),
        ensures
            final(reader).data() == old(reader).data(),
            final(reader).spec_pos() == old(reader).spec_pos() + 14,
            r is Ok,
            r matches Ok(v) ==> v == version_at(old(reader).data(), old(reader).spec_pos())
                && version_wf(v),
    {
        let _version_string = reader.read_bytes(10);
        let lsb = reader.read();
        let msb = reader.read();
        let major = msb & 0x0F;
        let minor = (lsb >> 4) & 0x0F;
        let patch = lsb & 0x0F;
        let _ = reader.read_bytes(2);
        proof {
            assert(major <= 0x0F && minor <= 0x0F && patch <= 0x0F) by (bit_vector)
                requires
                    major == msb & 0x0F,
                    minor == (lsb >> 4) & 0x0F,
                    patch == lsb & 0x0F,
            ;
        }
        Ok(Self { major, minor, patch })
    }
}

} // verus!

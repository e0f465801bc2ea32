//! Musical scale records: a twelve-note enable map with per-note offsets.

use crate::reader::{string_at, M8Result, ParseError, Reader};
use crate::version::{Version, VERSION_SIZE};
use vstd::prelude::*;

verus! {

broadcast use crate::reader::lemma_reader_pos_nonneg, crate::reader::lemma_reader_data_bound;

/// On-disk size of one scale record inside a song.
pub const SCALE_SIZE: usize = 42;

/// Offset of one note of a scale, in whole semitones and cents.
#[derive(PartialEq, Eq, Structural, Debug, Clone, Copy)]
pub struct NoteOffset {
    pub enabled: bool,
    /// Whole semitones of the offset.
    pub semitones: u8,
    /// Hundredths of a semitone added to `semitones`.
    pub cents: u8,
}

/// A musical scale: an enable bit and an offset for each of the twelve
/// notes.
#[derive(PartialEq, Debug, Clone)]
pub struct Scale {
    pub number: u8,
    pub name: Vec<u8>,
    pub notes: Vec<NoteOffset>,
}

/// The scale record at `m`, parsed as slot `number`: a sixteen-bit
/// little-endian enable map, twelve two-byte offsets, then a sixteen-byte
/// name field.
pub open spec fn scale_matches(b: Seq<u8>, m: int, number: u8, s: Scale) -> bool {
    &&& s.number == number
    &&& s.notes@.len() == 12
    &&& forall|i: int|
        0 <= i < 12 ==> #[trigger] s.notes@[i] == (NoteOffset {
            enabled: ((b[m] + 256 * b[m + 1]) as u16 >> (i as u16) & 1) == 1,
            semitones: b[m + 2 + 2 * i],
            cents: b[m + 3 + 2 * i],
        })
    &&& s.name@ == string_at(b, m + 26, 16)
}

impl Scale {
    /// Parse the scale record at the cursor.
    pub fn from_reader(reader: &mut Reader, number: u8) -> (r: M8Result<Self>)
        requires
            old(reader).spec_pos() + 42 <= old(reader).data().len(),
        ensures
            final(reader).data() == old(reader).data(),
            final(reader).spec_pos() == old(reader).spec_pos() + 42,
            r matches Ok(s) && scale_matches(old(reader).data(), old(reader).spec_pos(), number, s),
    {
        let ghost m = old(reader).spec_pos();
        let ghost b = old(reader).data();
        let lo = reader.read();
        let hi = reader.read();
        let map: u16 = (lo as u16) + 256 * (hi as u16);
        let mut notes: Vec<NoteOffset> = Vec::new();
        let mut i: usize = 0;
        while i < 12
            invariant
                0 <= m,
                m + 42 <= b.len(),
                reader.data() == b,
                reader.spec_pos() == m + 2 + 2 * i,
                i <= 12,
                map == (b[m] + 256 * b[m + 1]) as u16,
                notes@.len() == i,
                forall|j: int|
                    0 <= j < i ==> #[trigger] notes@[j] == (NoteOffset {
                        enabled: ((b[m] + 256 * b[m + 1]) as u16 >> (j as u16) & 1) == 1,
                        semitones: b[m + 2 + 2 * j],
                        cents: b[m + 3 + 2 * j],
                    }),
            decreases 12 - i,
        {
            let enabled = ((map >> (i as u16)) & 1) == 1;
            let semitones = reader.read();
            let cents = reader.read();
            notes.push(NoteOffset { enabled, semitones, cents });
            i = i + 1;
        }
        let name = reader.read_string(16);
        Ok(Self { number, name, notes })
    }
}

impl Default for Scale {
    /// The chromatic scale: all twelve notes enabled with zero offsets.
    fn default() -> (r: Self)
        ensures
            r.number == 0,
            r.notes@.len() == 12,
            forall|i: int|
                0 <= i < 12 ==> #[trigger] r.notes@[i] == (NoteOffset {
                    enabled: true,
                    semitones: 0,
                    cents: 0,
                }),
            r.name@ =~= seq![67u8, 72u8, 82u8, 79u8, 77u8, 65u8, 84u8, 73u8, 67u8],
    {
        let mut notes: Vec<NoteOffset> = Vec::new();
        let mut i: usize = 0;
        while i < 12
            invariant
                i <= 12,
                notes@.len() == i,
                forall|j: int|
                    0 <= j < i ==> #[trigger] notes@[j] == (NoteOffset {
                        enabled: true,
                        semitones: 0,
                        cents: 0,
                    }),
            decreases 12 - i,
        {
            notes.push(NoteOffset { enabled: true, semitones: 0, cents: 0 });
            i = i + 1;
        }
        let mut name: Vec<u8> = Vec::new();
        name.push(67);
        name.push(72);
        name.push(82);
        name.push(79);
        name.push(77);
        name.push(65);
        name.push(84);
        name.push(73);
        name.push(67);
        proof {
            assert(name@ =~= seq![67u8, 72u8, 82u8, 79u8, 77u8, 65u8, 84u8, 73u8, 67u8]);
        }
        Self { number: 0, name, notes }
    }
}

/// `scale_matches` depends only on the forty-two bytes at `m`.
pub proof fn lemma_scale_frame(b1: Seq<u8>, b2: Seq<u8>, m: int, number: u8, s: Scale)
    requires
        0 <= m,
        m + 42 <= b1.len(),
        b2.len() == b1.len(),
        forall|k: int| m <= k < m + 42 ==> #[trigger] b2[k] == b1[k],
        scale_matches(b1, m, number, s),
    ensures
        scale_matches(b2, m, number, s),
{
    assert(b2[m] == b1[m]);
    assert(b2[m + 1] == b1[m + 1]);
    assert forall|i: int| 0 <= i < 12 implies #[trigger] s.notes@[i] == (NoteOffset {
        enabled: ((b2[m] + 256 * b2[m + 1]) as u16 >> (i as u16) & 1) == 1,
        semitones: b2[m + 2 + 2 * i],
        cents: b2[m + 3 + 2 * i],
    }) by {
        assert(b2[m + 2 + 2 * i] == b1[m + 2 + 2 * i]);
        assert(b2[m + 3 + 2 * i] == b1[m + 3 + 2 * i]);
    }
    assert forall|k: int| m + 26 <= k < m + 26 + 16 implies #[trigger] b2[k] == b1[k] by {
        assert(b2[k] == b1[k]);
    }
    crate::reader::lemma_string_at_frame(b1, b2, m + 26, 16);
}

} // verus!

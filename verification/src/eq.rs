//! Three-band equalizer presets: per-band mode/type packing, band codec, and
//! the whole-EQ record codec.

use crate::reader::Reader;
use crate::writer::{preserved_outside, Writer};
use vstd::prelude::*;

verus! {

broadcast use crate::reader::lemma_reader_pos_nonneg, crate::reader::lemma_reader_data_bound, crate::writer::lemma_writer_pos_nonneg, crate::writer::lemma_writer_data_bound;

/// Size in bytes of one band record.
pub const EQ_BAND_SIZE: usize = 6;

/// Size in bytes of one whole EQ record (three bands).
pub const EQ_SIZE: usize = 18;

/// Filter curve of one band, stored in the low three bits of the mode byte.
#[derive(PartialEq, Eq, Structural, Clone, Copy, Debug)]
pub enum EqType {
    LowCut,
    LowShelf,
    Bell,
    BandPass,
    HiShelf,
    HiCut,
}

impl EqType {
    /// The on-disk code of this curve.
    pub open spec fn spec_code(self) -> u8 {
        match self {
            EqType::LowCut => 0,
            EqType::LowShelf => 1,
            EqType::Bell => 2,
            EqType::BandPass => 3,
            EqType::HiShelf => 4,
            EqType::HiCut => 5,
        }
    }

    /// The on-disk code of this curve.
    #[verifier::when_used_as_spec(spec_code)]
    pub fn code(self) -> (r: u8)
        ensures
            r == self.spec_code(),
    {
        match self {
            EqType::LowCut => 0,
            EqType::LowShelf => 1,
            EqType::Bell => 2,
            EqType::BandPass => 3,
            EqType::HiShelf => 4,
            EqType::HiCut => 5,
        }
    }

    /// The curve a code denotes, if any.
    pub open spec fn spec_from_code(v: u8) -> Option<EqType> {
        match v {
            0u8 => Some(EqType::LowCut),
            1u8 => Some(EqType::LowShelf),
            2u8 => Some(EqType::Bell),
            3u8 => Some(EqType::BandPass),
            4u8 => Some(EqType::HiShelf),
            5u8 => Some(EqType::HiCut),
            _ => None,
        }
    }

    /// The curve a code denotes, if any.
    #[verifier::when_used_as_spec(spec_from_code)]
    pub fn from_code(v: u8) -> (r: Option<EqType>)
        ensures
            r == Self::spec_from_code(v),
    {
        match v {
            0u8 => Some(EqType::LowCut),
            1u8 => Some(EqType::LowShelf),
            2u8 => Some(EqType::Bell),
            3u8 => Some(EqType::BandPass),
            4u8 => Some(EqType::HiShelf),
            5u8 => Some(EqType::HiCut),
            _ => None,
        }
    }
}

/// Stereo routing of one band, stored in bits five to seven of the mode byte.
#[derive(PartialEq, Eq, Structural, Clone, Copy, Debug)]
pub enum EqMode {
    Stereo,
    Mid,
    Side,
    Left,
    Right,
}

impl EqMode {
    /// The on-disk code of this routing.
    pub open spec fn spec_code(self) -> u8 {
        match self {
            EqMode::Stereo => 0,
            EqMode::Mid => 1,
            EqMode::Side => 2,
            EqMode::Left => 3,
            EqMode::Right => 4,
        }
    }

    /// The on-disk code of this routing.
    #[verifier::when_used_as_spec(spec_code)]
    pub fn code(self) -> (r: u8)
        ensures
            r == self.spec_code(),
    {
        match self {
            EqMode::Stereo => 0,
            EqMode::Mid => 1,
            EqMode::Side => 2,
            EqMode::Left => 3,
            EqMode::Right => 4,
        }
    }

    /// The routing a code denotes, if any.
    pub open spec fn spec_from_code(v: u8) -> Option<EqMode> {
        match v {
            0u8 => Some(EqMode::Stereo),
            1u8 => Some(EqMode::Mid),
            2u8 => Some(EqMode::Side),
            3u8 => Some(EqMode::Left),
            4u8 => Some(EqMode::Right),
            _ => None,
        }
    }

    /// The routing a code denotes, if any.
    #[verifier::when_used_as_spec(spec_from_code)]
    pub fn from_code(v: u8) -> (r: Option<EqMode>)
        ensures
            r == Self::spec_from_code(v),
    {
        match v {
            0u8 => Some(EqMode::Stereo),
            1u8 => Some(EqMode::Mid),
            2u8 => Some(EqMode::Side),
            3u8 => Some(EqMode::Left),
            4u8 => Some(EqMode::Right),
            _ => None,
        }
    }
}

/// The packed mode/type byte of one band: type code in the low three bits,
/// mode code in bits five to seven.  Any byte value is accepted on disk.
#[derive(PartialEq, Eq, Structural, Clone, Copy, Debug)]
pub struct EqModeType(pub u8);

impl EqModeType {
    /// Pack a curve and a routing into one byte.
    pub fn new(ty: EqType, mode: EqMode) -> (r: EqModeType)
        ensures
            r.0 == (ty.spec_code() | (mode.spec_code() << 5)),
            r.spec_eq_type_hex() == ty.spec_code(),
            r.spec_eq_mode_hex() == mode.spec_code(),
    {
        let t = ty.code();
        let m = mode.code();
        let packed: u8 = t | (m << 5);
        proof {
            assert(packed & 0x7 == t && (packed >> 5) & 0x7 == m) by (bit_vector)
                requires
                    packed == t | (m << 5),
                    t <= 5,
                    m <= 4,
            ;
        }
        EqModeType(packed)
    }

    /// The three type bits.
    pub open spec fn spec_eq_type_hex(&self) -> u8 {
        self.0 & 0x7
    }

    /// The three type bits.
    #[verifier::when_used_as_spec(spec_eq_type_hex)]
    pub fn eq_type_hex(&self) -> (r: u8)
        ensures
            r == self.spec_eq_type_hex(),
    {
        self.0 & 0x7
    }

    /// The three mode bits.
    pub open spec fn spec_eq_mode_hex(&self) -> u8 {
        (self.0 >> 5) & 0x7
    }

    /// The three mode bits.
    #[verifier::when_used_as_spec(spec_eq_mode_hex)]
    pub fn eq_mode_hex(&self) -> (r: u8)
        ensures
            r == self.spec_eq_mode_hex(),
    {
        (self.0 >> 5) & 0x7
    }

    /// The curve this byte selects, falling back to `Bell` on an unknown
    /// code.
    pub fn eq_type(&self) -> (r: EqType)
        ensures
            r == match EqType::spec_from_code(self.spec_eq_type_hex()) {
                Some(t) => t,
                None => EqType::Bell,
            },
    {
        match EqType::from_code(self.eq_type_hex()) {
            Some(t) => t,
            None => EqType::Bell,
        }
    }

    /// The routing this byte selects, falling back to `Stereo` on an unknown
    /// code.
    pub fn eq_mode(&self) -> (r: EqMode)
        ensures
            r == match EqMode::spec_from_code(self.spec_eq_mode_hex()) {
                Some(m) => m,
                None => EqMode::Stereo,
            },
    {
        match EqMode::from_code(self.eq_mode_hex()) {
            Some(m) => m,
            None => EqMode::Stereo,
        }
    }
}

/// One equalizer band: packed mode byte, fine/coarse frequency, fine/coarse
/// level, and Q factor.
#[derive(PartialEq, Eq, Structural, Clone, Copy, Debug)]
pub struct EqBand {
    pub mode: EqModeType,
    pub freq_fin: u8,
    pub freq: u8,
    pub level_fin: u8,
    pub level: u8,
    pub q: u8,
}

/// The six bytes at `p` hold exactly this band.
pub open spec fn eq_band_matches(b: Seq<u8>, p: int, band: EqBand) -> bool {
    &&& band.mode.0 == b[p]
    &&& band.freq_fin == b[p + 1]
    &&& band.freq == b[p + 2]
    &&& band.level_fin == b[p + 3]
    &&& band.level == b[p + 4]
    &&& band.q == b[p + 5]
}

impl EqBand {
    /// The default low band: a stereo low shelf at 100 Hz, level zero.
    pub fn default_low() -> (r: EqBand)
        ensures
            r == (EqBand {
                mode: EqModeType(1),
                freq: 0,
                freq_fin: 100,
                level_fin: 0,
                level: 0,
                q: 50,
            }),
    {
        proof {
            assert((1u8 | (0u8 << 5)) == 1u8) by (bit_vector);
        }
        EqBand {
            mode: EqModeType::new(EqType::LowShelf, EqMode::Stereo),
            freq: 0,
            freq_fin: 100,
            level_fin: 0,
            level: 0,
            q: 50,
        }
    }

    /// The default mid band: a stereo bell at 1000 Hz, level zero.
    pub fn default_mid() -> (r: EqBand)
        ensures
            r == (EqBand {
                mode: EqModeType(2),
                freq: 3,
                freq_fin: 232,
                level_fin: 0,
                level: 0,
                q: 50,
            }),
    {
        proof {
            assert((2u8 | (0u8 << 5)) == 2u8) by (bit_vector);
        }
        EqBand {
            mode: EqModeType::new(EqType::Bell, EqMode::Stereo),
            freq: 3,
            freq_fin: 232,
            level_fin: 0,
            level: 0,
            q: 50,
        }
    }

    /// The default high band: a stereo high shelf at 5000 Hz, level zero.
    pub fn default_high() -> (r: EqBand)
        ensures
            r == (EqBand {
                mode: EqModeType(4),
                freq: 19,
                freq_fin: 136,
                level_fin: 0,
                level: 0,
                q: 50,
            }),
    {
        proof {
            assert((4u8 | (0u8 << 5)) == 4u8) by (bit_vector);
        }
        EqBand {
            mode: EqModeType::new(EqType::HiShelf, EqMode::Stereo),
            freq: 19,
            freq_fin: 136,
            level_fin: 0,
            level: 0,
            q: 50,
        }
    }

    /// A band is empty when both level bytes are zero.
    pub fn is_empty(&self) -> (r: bool)
        ensures
            r == (self.level == 0 && self.level_fin == 0),
    {
        self.level == 0 && self.level_fin == 0
    }

    /// The band frequency in Hz, from the coarse and fine bytes.
    pub fn frequency(&self) -> (r: usize)
        ensures
            r == self.freq * 256 + self.freq_fin,
    {
        (self.freq as usize) * 256 + (self.freq_fin as usize)
    }

    /// Serialize the six band bytes.
    pub fn write(&self, w: &mut Writer)
        requires
            old(w).spec_pos() + 6 <= old(w).data().len(),
        ensures
            final(w).data().len() == old(w).data().len(),
            final(w).spec_pos() == old(w).spec_pos() + 6,
            preserved_outside(
                old(w).data(),
                final(w).data(),
                old(w).spec_pos(),
                old(w).spec_pos() + 6,
            ),
            eq_band_matches(final(w).data(), old(w).spec_pos(), *self),
    {
        w.write(self.mode.0);
        w.write(self.freq_fin);
        w.write(self.freq);
        w.write(self.level_fin);
        w.write(self.level);
        w.write(self.q);
    }

    /// Parse the six band bytes.
    pub fn from_reader(reader: &mut Reader) -> (r: EqBand)
        requires
            old(reader).spec_pos() + 6 <= old(reader).data().len(),
        ensures
            final(reader).data() == old(reader).data(),
            final(reader).spec_pos() == old(reader).spec_pos() + 6,
            eq_band_matches(old(reader).data(), old(reader).spec_pos(), r),
    {
        let mode = EqModeType(reader.read());
        let freq_fin = reader.read();
        let freq = reader.read();
        let level_fin = reader.read();
        let level = reader.read();
        let q = reader.read();
        EqBand { level, level_fin, freq, freq_fin, mode, q }
    }
}

/// One equalizer preset: low, mid and high bands.
#[derive(PartialEq, Eq, Structural, Clone, Copy, Debug)]
pub struct Equ {
    pub low: EqBand,
    pub mid: EqBand,
    pub high: EqBand,
}

/// The default EQ record: the three default bands.
pub open spec fn equ_default() -> Equ {
    Equ {
        low: EqBand { mode: EqModeType(1), freq: 0, freq_fin: 100, level_fin: 0, level: 0, q: 50 },
        mid: EqBand {
            mode: EqModeType(2),
            freq: 3,
            freq_fin: 232,
            level_fin: 0,
            level: 0,
            q: 50,
        },
        high: EqBand {
            mode: EqModeType(4),
            freq: 19,
            freq_fin: 136,
            level_fin: 0,
            level: 0,
            q: 50,
        },
    }
}

/// The eighteen bytes at `p` hold exactly this EQ record.
pub open spec fn equ_matches(b: Seq<u8>, p: int, e: Equ) -> bool {
    &&& eq_band_matches(b, p, e.low)
    &&& eq_band_matches(b, p + 6, e.mid)
    &&& eq_band_matches(b, p + 12, e.high)
}

impl Equ {
    /// An EQ record is empty when all three bands hold their default values.
    pub fn is_empty(&self) -> (r: bool)
        ensures
            r == (*self == equ_default()),
    {
        let d = Equ::default();
        self.low == d.low && self.mid == d.mid && self.high == d.high
    }

    /// Reset all three bands to their default values.
    pub fn clear(&mut self)
        ensures
            *final(self) == equ_default(),
    {
        self.low = EqBand::default_low();
        self.mid = EqBand::default_mid();
        self.high = EqBand::default_high();
    }

    /// Serialize the three bands in order.
    pub fn write(&self, w: &mut Writer)
        requires
            old(w).spec_pos() + 18 <= old(w).data().len(),
        ensures
            final(w).data().len() == old(w).data().len(),
            final(w).spec_pos() == old(w).spec_pos() + 18,
            preserved_outside(
                old(w).data(),
                final(w).data(),
                old(w).spec_pos(),
                old(w).spec_pos() + 18,
            ),
            equ_matches(final(w).data(), old(w).spec_pos(), *self),
    {
        self.low.write(w);
        self.mid.write(w);
        self.high.write(w);
    }

    /// Parse the three bands in order.
    pub fn from_reader(reader: &mut Reader) -> (r: Equ)
        requires
            old(reader).spec_pos() + 18 <= old(reader).data().len(),
        ensures
            final(reader).data() == old(reader).data(),
            final(reader).spec_pos() == old(reader).spec_pos() + 18,
            equ_matches(old(reader).data(), old(reader).spec_pos(), r),
    {
        let low = EqBand::from_reader(reader);
        let mid = EqBand::from_reader(reader);
        let high = EqBand::from_reader(reader);
        Equ { low, mid, high }
    }
}

impl Default for Equ {
    /// The default EQ record, as a fresh song holds in every slot.
    fn default() -> (r: Self)
        ensures
            r == equ_default(),
    {
        Equ { low: EqBand::default_low(), mid: EqBand::default_mid(), high: EqBand::default_high() }
    }
}

/// `equ_matches` depends only on the eighteen bytes at `p`.
pub proof fn lemma_equ_frame(b1: Seq<u8>, b2: Seq<u8>, p: int, e: Equ)
    requires
        forall|k: int| p <= k < p + 18 ==> #[trigger] b2[k] == b1[k],
        equ_matches(b1, p, e),
    ensures
        equ_matches(b2, p, e),
{
    assert forall|k: int| p <= k < p + 18 implies b2[k] == b1[k] by {}
    assert(b2[p] == b1[p]);
    assert(b2[p + 1] == b1[p + 1]);
    assert(b2[p + 2] == b1[p + 2]);
    assert(b2[p + 3] == b1[p + 3]);
    assert(b2[p + 4] == b1[p + 4]);
    assert(b2[p + 5] == b1[p + 5]);
    assert(b2[p + 6] == b1[p + 6]);
    assert(b2[p + 7] == b1[p + 7]);
    assert(b2[p + 8] == b1[p + 8]);
    assert(b2[p + 9] == b1[p + 9]);
    assert(b2[p + 10] == b1[p + 10]);
    assert(b2[p + 11] == b1[p + 11]);
    assert(b2[p + 12] == b1[p + 12]);
    assert(b2[p + 13] == b1[p + 13]);
    assert(b2[p + 14] == b1[p + 14]);
    assert(b2[p + 15] == b1[p + 15]);
    assert(b2[p + 16] == b1[p + 16]);
    assert(b2[p + 17] == b1[p + 17]);
}

} // verus!

//! Modulator codec: a fixed six-byte tagged union of six modulation-source
//! kinds.  The leading byte packs `(kind << 4) | destination`; the remaining
//! five bytes are kind-specific, and unused payload bytes are skipped so that
//! every modulator occupies exactly six bytes on disk.

use crate::reader::{M8Result, ParseError, Reader};
use crate::writer::{preserved_outside, Writer};
use vstd::prelude::*;

verus! {

broadcast use crate::reader::lemma_reader_pos_nonneg, crate::reader::lemma_reader_data_bound, crate::writer::lemma_writer_pos_nonneg, crate::writer::lemma_writer_data_bound;

/// Size in bytes of one modulator record.
pub const MOD_SIZE: usize = 6;

/// Attack-hold-decay envelope.
#[derive(PartialEq, Eq, Structural, Clone, Copy, Debug)]
pub struct AHDEnv {
    pub dest: u8,
    pub amount: u8,
    pub attack: u8,
    pub hold: u8,
    pub decay: u8,
}

impl Default for AHDEnv {
    /// An all-zero envelope, used to fill unread modulator slots.
    fn default() -> (r: Self)
        ensures
            r == (AHDEnv { dest: 0, amount: 0, attack: 0, hold: 0, decay: 0 }),
    {
        AHDEnv { dest: 0, amount: 0, attack: 0, hold: 0, decay: 0 }
    }
}

/// Attack-decay-sustain-release envelope.
#[derive(PartialEq, Eq, Structural, Clone, Copy, Debug)]
pub struct ADSREnv {
    pub dest: u8,
    pub amount: u8,
    pub attack: u8,
    pub decay: u8,
    pub sustain: u8,
    pub release: u8,
}

/// Drum-style envelope with peak and body stages.
#[derive(PartialEq, Eq, Structural, Clone, Copy, Debug)]
pub struct DrumEnv {
    pub dest: u8,
    pub amount: u8,
    pub peak: u8,
    pub body: u8,
    pub decay: u8,
}

/// Envelope retriggered by an external source.
#[derive(PartialEq, Eq, Structural, Clone, Copy, Debug)]
pub struct TrigEnv {
    pub dest: u8,
    pub amount: u8,
    pub attack: u8,
    pub hold: u8,
    pub decay: u8,
    pub src: u8,
}

/// Modulation that tracks an external source between two values.
#[derive(PartialEq, Eq, Structural, Clone, Copy, Debug)]
pub struct TrackingEnv {
    pub dest: u8,
    pub amount: u8,
    pub src: u8,
    pub lval: u8,
    pub hval: u8,
}

/// Waveform of a low-frequency oscillator.
#[derive(PartialEq, Eq, Structural, Clone, Copy, Debug)]
#[allow(non_camel_case_types)]
pub enum LfoShape {
    TRI,
    SIN,
    RAMP_DOWN,
    RAMP_UP,
    EXP_DN,
    EXP_UP,
    SQR_DN,
    SQR_UP,
    RANDOM,
    DRUNK,
    TRI_T,
    SIN_T,
    RAMPD_T,
    RAMPU_T,
    EXPD_T,
    EXPU_T,
    SQ_D_T,
    SQ_U_T,
    RAND_T,
    DRNK_T,
}

impl LfoShape {
    /// The on-disk code of this shape.
    pub open spec fn spec_code(self) -> u8 {
        match self {
            LfoShape::TRI => 0,
            LfoShape::SIN => 1,
            LfoShape::RAMP_DOWN => 2,
            LfoShape::RAMP_UP => 3,
            LfoShape::EXP_DN => 4,
            LfoShape::EXP_UP => 5,
            LfoShape::SQR_DN => 6,
            LfoShape::SQR_UP => 7,
            LfoShape::RANDOM => 8,
            LfoShape::DRUNK => 9,
            LfoShape::TRI_T => 10,
            LfoShape::SIN_T => 11,
            LfoShape::RAMPD_T => 12,
            LfoShape::RAMPU_T => 13,
            LfoShape::EXPD_T => 14,
            LfoShape::EXPU_T => 15,
            LfoShape::SQ_D_T => 16,
            LfoShape::SQ_U_T => 17,
            LfoShape::RAND_T => 18,
            LfoShape::DRNK_T => 19,
        }
    }

    /// The on-disk code of this shape.
    #[verifier::when_used_as_spec(spec_code)]
    pub fn code(self) -> (r: u8)
        ensures
            r == self.spec_code(),
    {
        match self {
            LfoShape::TRI => 0,
            LfoShape::SIN => 1,
            LfoShape::RAMP_DOWN => 2,
            LfoShape::RAMP_UP => 3,
            LfoShape::EXP_DN => 4,
            LfoShape::EXP_UP => 5,
            LfoShape::SQR_DN => 6,
            LfoShape::SQR_UP => 7,
            LfoShape::RANDOM => 8,
            LfoShape::DRUNK => 9,
            LfoShape::TRI_T => 10,
            LfoShape::SIN_T => 11,
            LfoShape::RAMPD_T => 12,
            LfoShape::RAMPU_T => 13,
            LfoShape::EXPD_T => 14,
            LfoShape::EXPU_T => 15,
            LfoShape::SQ_D_T => 16,
            LfoShape::SQ_U_T => 17,
            LfoShape::RAND_T => 18,
            LfoShape::DRNK_T => 19,
        }
    }

    /// The shape a code denotes; codes twenty and above are invalid.
    pub open spec fn spec_from_code(v: u8) -> Option<LfoShape> {
        match v {
            0u8 => Some(LfoShape::TRI),
            1u8 => Some(LfoShape::SIN),
            2u8 => Some(LfoShape::RAMP_DOWN),
            3u8 => Some(LfoShape::RAMP_UP),
            4u8 => Some(LfoShape::EXP_DN),
            5u8 => Some(LfoShape::EXP_UP),
            6u8 => Some(LfoShape::SQR_DN),
            7u8 => Some(LfoShape::SQR_UP),
            8u8 => Some(LfoShape::RANDOM),
            9u8 => Some(LfoShape::DRUNK),
            10u8 => Some(LfoShape::TRI_T),
            11u8 => Some(LfoShape::SIN_T),
            12u8 => Some(LfoShape::RAMPD_T),
            13u8 => Some(LfoShape::RAMPU_T),
            14u8 => Some(LfoShape::EXPD_T),
            15u8 => Some(LfoShape::EXPU_T),
            16u8 => Some(LfoShape::SQ_D_T),
            17u8 => Some(LfoShape::SQ_U_T),
            18u8 => Some(LfoShape::RAND_T),
            19u8 => Some(LfoShape::DRNK_T),
            _ => None,
        }
    }

    /// The shape a code denotes; codes twenty and above are invalid.
    #[verifier::when_used_as_spec(spec_from_code)]
    pub fn from_code(v: u8) -> (r: Option<LfoShape>)
        ensures
            r == Self::spec_from_code(v),
    {
        match v {
            0u8 => Some(LfoShape::TRI),
            1u8 => Some(LfoShape::SIN),
            2u8 => Some(LfoShape::RAMP_DOWN),
            3u8 => Some(LfoShape::RAMP_UP),
            4u8 => Some(LfoShape::EXP_DN),
            5u8 => Some(LfoShape::EXP_UP),
            6u8 => Some(LfoShape::SQR_DN),
            7u8 => Some(LfoShape::SQR_UP),
            8u8 => Some(LfoShape::RANDOM),
            9u8 => Some(LfoShape::DRUNK),
            10u8 => Some(LfoShape::TRI_T),
            11u8 => Some(LfoShape::SIN_T),
            12u8 => Some(LfoShape::RAMPD_T),
            13u8 => Some(LfoShape::RAMPU_T),
            14u8 => Some(LfoShape::EXPD_T),
            15u8 => Some(LfoShape::EXPU_T),
            16u8 => Some(LfoShape::SQ_D_T),
            17u8 => Some(LfoShape::SQ_U_T),
            18u8 => Some(LfoShape::RAND_T),
            19u8 => Some(LfoShape::DRNK_T),
            _ => None,
        }
    }
}

/// Retrigger behaviour of a low-frequency oscillator.
#[derive(PartialEq, Eq, Structural, Clone, Copy, Debug)]
pub enum LfoTriggerMode {
    FREE,
    RETRIG,
    HOLD,
    ONCE,
}

impl LfoTriggerMode {
    /// The on-disk code of this trigger mode.
    pub open spec fn spec_code(self) -> u8 {
        match self {
            LfoTriggerMode::FREE => 0,
            LfoTriggerMode::RETRIG => 1,
            LfoTriggerMode::HOLD => 2,
            LfoTriggerMode::ONCE => 3,
        }
    }

    /// The on-disk code of this trigger mode.
    #[verifier::when_used_as_spec(spec_code)]
    pub fn code(self) -> (r: u8)
        ensures
            r == self.spec_code(),
    {
        match self {
            LfoTriggerMode::FREE => 0,
            LfoTriggerMode::RETRIG => 1,
            LfoTriggerMode::HOLD => 2,
            LfoTriggerMode::ONCE => 3,
        }
    }

    /// The trigger mode a code denotes; codes four and above are invalid.
    pub open spec fn spec_from_code(v: u8) -> Option<LfoTriggerMode> {
        match v {
            0u8 => Some(LfoTriggerMode::FREE),
            1u8 => Some(LfoTriggerMode::RETRIG),
            2u8 => Some(LfoTriggerMode::HOLD),
            3u8 => Some(LfoTriggerMode::ONCE),
            _ => None,
        }
    }

    /// The trigger mode a code denotes; codes four and above are invalid.
    #[verifier::when_used_as_spec(spec_from_code)]
    pub fn from_code(v: u8) -> (r: Option<LfoTriggerMode>)
        ensures
            r == Self::spec_from_code(v),
    {
        match v {
            0u8 => Some(LfoTriggerMode::FREE),
            1u8 => Some(LfoTriggerMode::RETRIG),
            2u8 => Some(LfoTriggerMode::HOLD),
            3u8 => Some(LfoTriggerMode::ONCE),
            _ => None,
        }
    }
}

/// Low-frequency oscillator.
#[derive(PartialEq, Eq, Structural, Clone, Copy, Debug)]
pub struct LFO {
    pub shape: LfoShape,
    pub dest: u8,
    pub trigger_mode: LfoTriggerMode,
    pub freq: u8,
    pub amount: u8,
    pub retrigger: u8,
}

/// One modulation source attached to an instrument's modulator slot.
#[derive(PartialEq, Eq, Structural, Clone, Copy, Debug)]
pub enum Mod {
    AHDEnv(AHDEnv),
    ADSREnv(ADSREnv),
    DrumEnv(DrumEnv),
    LFO(LFO),
    TrigEnv(TrigEnv),
    TrackingEnv(TrackingEnv),
}

/// The destination nibble of a modulator.
pub open spec fn mod_dest(m: Mod) -> u8 {
    match m {
        Mod::AHDEnv(e) => e.dest,
        Mod::ADSREnv(e) => e.dest,
        Mod::DrumEnv(e) => e.dest,
        Mod::LFO(l) => l.dest,
        Mod::TrigEnv(e) => e.dest,
        Mod::TrackingEnv(e) => e.dest,
    }
}

/// A modulator can be serialized: its destination fits the low nibble of the
/// tag byte.
pub open spec fn mod_wf(m: Mod) -> bool {
    mod_dest(m) < 16
}

/// The six bytes at `p` decode to some modulator: the kind nibble is at most
/// five, and an LFO carries a valid shape and trigger mode.
pub open spec fn mod_valid(b: Seq<u8>, p: int) -> bool {
    (b[p] >> 4) <= 5 && ((b[p] >> 4) == 3 ==> LfoShape::spec_from_code(b[p + 2]) is Some
        && LfoTriggerMode::spec_from_code(b[p + 3]) is Some)
}

/// The six bytes at `p` hold exactly this modulator in the tagged layout
/// used by format revisions three and later.
pub open spec fn mod_matches(b: Seq<u8>, p: int, m: Mod) -> bool {
    match m {
        Mod::AHDEnv(e) => {
            &&& (b[p] >> 4) == 0
            &&& e.dest == (b[p] & 0x0F)
            &&& e.amount == b[p + 1]
            &&& e.attack == b[p + 2]
            &&& e.hold == b[p + 3]
            &&& e.decay == b[p + 4]
        },
        Mod::ADSREnv(e) => {
            &&& (b[p] >> 4) == 1
            &&& e.dest == (b[p] & 0x0F)
            &&& e.amount == b[p + 1]
            &&& e.attack == b[p + 2]
            &&& e.decay == b[p + 3]
            &&& e.sustain == b[p + 4]
            &&& e.release == b[p + 5]
        },
        Mod::DrumEnv(e) => {
            &&& (b[p] >> 4) == 2
            &&& e.dest == (b[p] & 0x0F)
            &&& e.amount == b[p + 1]
            &&& e.peak == b[p + 2]
            &&& e.body == b[p + 3]
            &&& e.decay == b[p + 4]
        },
        Mod::LFO(l) => {
            &&& (b[p] >> 4) == 3
            &&& l.dest == (b[p] & 0x0F)
            &&& l.amount == b[p + 1]
            &&& LfoShape::spec_from_code(b[p + 2]) == Some(l.shape)
            &&& LfoTriggerMode::spec_from_code(b[p + 3]) == Some(l.trigger_mode)
            &&& l.freq == b[p + 4]
            &&& l.retrigger == b[p + 5]
        },
        Mod::TrigEnv(e) => {
            &&& (b[p] >> 4) == 4
            &&& e.dest == (b[p] & 0x0F)
            &&& e.amount == b[p + 1]
            &&& e.attack == b[p + 2]
            &&& e.hold == b[p + 3]
            &&& e.decay == b[p + 4]
            &&& e.src == b[p + 5]
        },
        Mod::TrackingEnv(e) => {
            &&& (b[p] >> 4) == 5
            &&& e.dest == (b[p] & 0x0F)
            &&& e.amount == b[p + 1]
            &&& e.src == b[p + 2]
            &&& e.lval == b[p + 3]
            &&& e.hval == b[p + 4]
        },
    }
}

/// `mod_valid` and `mod_matches` depend only on the six bytes at `p`.
pub proof fn lemma_mod_frame(b1: Seq<u8>, b2: Seq<u8>, p: int, m: Mod)
    requires
        forall|k: int| p <= k < p + 6 ==> #[trigger] b2[k] == b1[k],
    ensures
        mod_valid(b2, p) == mod_valid(b1, p),
        mod_matches(b2, p, m) == mod_matches(b1, p, m),
{
    assert(b2[p] == b1[p]);
    assert(b2[p + 1] == b1[p + 1]);
    assert(b2[p + 2] == b1[p + 2]);
    assert(b2[p + 3] == b1[p + 3]);
    assert(b2[p + 4] == b1[p + 4]);
    assert(b2[p + 5] == b1[p + 5]);
}

/// `mod_matches` pins every field down: two modulators matching the same six
/// bytes are equal.
pub proof fn lemma_mod_matches_unique(b: Seq<u8>, p: int, m1: Mod, m2: Mod)
    requires
        mod_matches(b, p, m1),
        mod_matches(b, p, m2),
    ensures
        m1 == m2,
{
}

impl AHDEnv {
    /// Parse the legacy pre-3.0 layout: a full destination byte, then the
    /// four envelope parameters, then one padding byte.
    pub fn from_reader2(reader: &mut Reader) -> (r: M8Result<Self>)
        requires
            old(reader).spec_pos() + 6 <= old(reader).data().len(),
        ensures
            final(reader).data() == old(reader).data(),
            final(reader).spec_pos() == old(reader).spec_pos() + 6,
            r matches Ok(e) && e == (AHDEnv {
                dest: old(reader).data()[old(reader).spec_pos()],
                amount: old(reader).data()[old(reader).spec_pos() + 1],
                attack: old(reader).data()[old(reader).spec_pos() + 2],
                hold: old(reader).data()[old(reader).spec_pos() + 3],
                decay: old(reader).data()[old(reader).spec_pos() + 4],
            }),
    {
        let r = Self {
            dest: reader.read(),
            amount: reader.read(),
            attack: reader.read(),
            hold: reader.read(),
            decay: reader.read(),
        };
        let _ = reader.read();
        Ok(r)
    }

    /// Parse the tagged-layout payload, the destination having been unpacked
    /// from the tag byte by the caller.
    pub fn from_reader3(reader: &mut Reader, dest: u8) -> (r: M8Result<Self>)
        requires
            old(reader).spec_pos() + 4 <= old(reader).data().len(),
        ensures
            final(reader).data() == old(reader).data(),
            final(reader).spec_pos() == old(reader).spec_pos() + 4,
            r matches Ok(e) && e == (AHDEnv {
                dest: dest,
                amount: old(reader).data()[old(reader).spec_pos()],
                attack: old(reader).data()[old(reader).spec_pos() + 1],
                hold: old(reader).data()[old(reader).spec_pos() + 2],
                decay: old(reader).data()[old(reader).spec_pos() + 3],
            }),
    {
        Ok(Self {
            dest,
            amount: reader.read(),
            attack: reader.read(),
            hold: reader.read(),
            decay: reader.read(),
        })
    }

    /// Serialize the four payload bytes.
    pub fn write(&self, w: &mut Writer)
        requires
            old(w).spec_pos() + 4 <= old(w).data().len(),
        ensures
            final(w).data().len() == old(w).data().len(),
            final(w).spec_pos() == old(w).spec_pos() + 4,
            preserved_outside(
                old(w).data(),
                final(w).data(),
                old(w).spec_pos(),
                old(w).spec_pos() + 4,
            ),
            final(w).data()[old(w).spec_pos()] == self.amount,
            final(w).data()[old(w).spec_pos() + 1] == self.attack,
            final(w).data()[old(w).spec_pos() + 2] == self.hold,
            final(w).data()[old(w).spec_pos() + 3] == self.decay,
    {
        w.write(self.amount);
        w.write(self.attack);
        w.write(self.hold);
        w.write(self.decay);
    }

    /// Wrap this envelope as a modulator.
    pub fn to_mod(self) -> (r: Mod)
        ensures
            r == Mod::AHDEnv(self),
    {
        Mod::AHDEnv(self)
    }
}

impl ADSREnv {
    /// Parse the tagged-layout payload.
    pub fn from_reader(reader: &mut Reader, dest: u8) -> (r: M8Result<Self>)
        requires
            old(reader).spec_pos() + 5 <= old(reader).data().len(),
        ensures
            final(reader).data() == old(reader).data(),
            final(reader).spec_pos() == old(reader).spec_pos() + 5,
            r matches Ok(e) && e == (ADSREnv {
                dest: dest,
                amount: old(reader).data()[old(reader).spec_pos()],
                attack: old(reader).data()[old(reader).spec_pos() + 1],
                decay: old(reader).data()[old(reader).spec_pos() + 2],
                sustain: old(reader).data()[old(reader).spec_pos() + 3],
                release: old(reader).data()[old(reader).spec_pos() + 4],
            }),
    {
        Ok(Self {
            dest,
            amount: reader.read(),
            attack: reader.read(),
            decay: reader.read(),
            sustain: reader.read(),
            release: reader.read(),
        })
    }

    /// Serialize the five payload bytes.
    pub fn write(&self, w: &mut Writer)
        requires
            old(w).spec_pos() + 5 <= old(w).data().len(),
        ensures
            final(w).data().len() == old(w).data().len(),
            final(w).spec_pos() == old(w).spec_pos() + 5,
            preserved_outside(
                old(w).data(),
                final(w).data(),
                old(w).spec_pos(),
                old(w).spec_pos() + 5,
            ),
            final(w).data()[old(w).spec_pos()] == self.amount,
            final(w).data()[old(w).spec_pos() + 1] == self.attack,
            final(w).data()[old(w).spec_pos() + 2] == self.decay,
            final(w).data()[old(w).spec_pos() + 3] == self.sustain,
            final(w).data()[old(w).spec_pos() + 4] == self.release,
    {
        w.write(self.amount);
        w.write(self.attack);
        w.write(self.decay);
        w.write(self.sustain);
        w.write(self.release);
    }
}

impl DrumEnv {
    /// Parse the tagged-layout payload.
    pub fn from_reader(reader: &mut Reader, dest: u8) -> (r: M8Result<Self>)
        requires
            old(reader).spec_pos() + 4 <= old(reader).data().len(),
        ensures
            final(reader).data() == old(reader).data(),
            final(reader).spec_pos() == old(reader).spec_pos() + 4,
            r matches Ok(e) && e == (DrumEnv {
                dest: dest,
                amount: old(reader).data()[old(reader).spec_pos()],
                peak: old(reader).data()[old(reader).spec_pos() + 1],
                body: old(reader).data()[old(reader).spec_pos() + 2],
                decay: old(reader).data()[old(reader).spec_pos() + 3],
            }),
    {
        Ok(Self {
            dest,
            amount: reader.read(),
            peak: reader.read(),
            body: reader.read(),
            decay: reader.read(),
        })
    }

    /// Serialize the four payload bytes.
    pub fn write(&self, w: &mut Writer)
        requires
            old(w).spec_pos() + 4 <= old(w).data().len(),
        ensures
            final(w).data().len() == old(w).data().len(),
            final(w).spec_pos() == old(w).spec_pos() + 4,
            preserved_outside(
                old(w).data(),
                final(w).data(),
                old(w).spec_pos(),
                old(w).spec_pos() + 4,
            ),
            final(w).data()[old(w).spec_pos()] == self.amount,
            final(w).data()[old(w).spec_pos() + 1] == self.peak,
            final(w).data()[old(w).spec_pos() + 2] == self.body,
            final(w).data()[old(w).spec_pos() + 3] == self.decay,
    {
        w.write(self.amount);
        w.write(self.peak);
        w.write(self.body);
        w.write(self.decay);
    }
}

impl TrigEnv {
    /// Parse the tagged-layout payload.
    pub fn from_reader(reader: &mut Reader, dest: u8) -> (r: M8Result<Self>)
        requires
            old(reader).spec_pos() + 5 <= old(reader).data().len(),
        ensures
            final(reader).data() == old(reader).data(),
            final(reader).spec_pos() == old(reader).spec_pos() + 5,
            r matches Ok(e) && e == (TrigEnv {
                dest: dest,
                amount: old(reader).data()[old(reader).spec_pos()],
                attack: old(reader).data()[old(reader).spec_pos() + 1],
                hold: old(reader).data()[old(reader).spec_pos() + 2],
                decay: old(reader).data()[old(reader).spec_pos() + 3],
                src: old(reader).data()[old(reader).spec_pos() + 4],
            }),
    {
        Ok(Self {
            dest,
            amount: reader.read(),
            attack: reader.read(),
            hold: reader.read(),
            decay: reader.read(),
            src: reader.read(),
        })
    }

    /// Serialize the five payload bytes.
    pub fn write(&self, w: &mut Writer)
        requires
            old(w).spec_pos() + 5 <= old(w).data().len(),
        ensures
            final(w).data().len() == old(w).data().len(),
            final(w).spec_pos() == old(w).spec_pos() + 5,
            preserved_outside(
                old(w).data(),
                final(w).data(),
                old(w).spec_pos(),
                old(w).spec_pos() + 5,
            ),
            final(w).data()[old(w).spec_pos()] == self.amount,
            final(w).data()[old(w).spec_pos() + 1] == self.attack,
            final(w).data()[old(w).spec_pos() + 2] == self.hold,
            final(w).data()[old(w).spec_pos() + 3] == self.decay,
            final(w).data()[old(w).spec_pos() + 4] == self.src,
    {
        w.write(self.amount);
        w.write(self.attack);
        w.write(self.hold);
        w.write(self.decay);
        w.write(self.src);
    }
}

impl TrackingEnv {
    /// Parse the tagged-layout payload.
    pub fn from_reader(reader: &mut Reader, dest: u8) -> (r: M8Result<Self>)
        requires
            old(reader).spec_pos() + 4 <= old(reader).data().len(),
        ensures
            final(reader).data() == old(reader).data(),
            final(reader).spec_pos() == old(reader).spec_pos() + 4,
            r matches Ok(e) && e == (TrackingEnv {
                dest: dest,
                amount: old(reader).data()[old(reader).spec_pos()],
                src: old(reader).data()[old(reader).spec_pos() + 1],
                lval: old(reader).data()[old(reader).spec_pos() + 2],
                hval: old(reader).data()[old(reader).spec_pos() + 3],
            }),
    {
        Ok(Self {
            dest,
            amount: reader.read(),
            src: reader.read(),
            lval: reader.read(),
            hval: reader.read(),
        })
    }

    /// Serialize the four payload bytes.
    pub fn write(&self, writer: &mut Writer)
        requires
            old(writer).spec_pos() + 4 <= old(writer).data().len(),
        ensures
            final(writer).data().len() == old(writer).data().len(),
            final(writer).spec_pos() == old(writer).spec_pos() + 4,
            preserved_outside(
                old(writer).data(),
                final(writer).data(),
                old(writer).spec_pos(),
                old(writer).spec_pos() + 4,
            ),
            final(writer).data()[old(writer).spec_pos()] == self.amount,
            final(writer).data()[old(writer).spec_pos() + 1] == self.src,
            final(writer).data()[old(writer).spec_pos() + 2] == self.lval,
            final(writer).data()[old(writer).spec_pos() + 3] == self.hval,
    {
        writer.write(self.amount);
        writer.write(self.src);
        writer.write(self.lval);
        writer.write(self.hval);
    }
}

impl LFO {
    /// Parse the legacy pre-3.0 layout: shape, destination and trigger bytes
    /// come first.
    pub fn from_reader2(reader: &mut Reader) -> (r: M8Result<Self>)
        requires
            old(reader).spec_pos() + 6 <= old(reader).data().len(),
        ensures
            final(reader).data() == old(reader).data(),
            final(reader).spec_pos() == old(reader).spec_pos() + 6,
            ({
                let b = old(reader).data();
                let p = old(reader).spec_pos();
                match r {
                    Ok(l) => LfoShape::spec_from_code(b[p]) == Some(l.shape)
                        && LfoTriggerMode::spec_from_code(b[p + 2]) == Some(l.trigger_mode)
                        && l.dest == b[p + 1] && l.freq == b[p + 3] && l.amount == b[p + 4]
                        && l.retrigger == b[p + 5],
                    Err(_) => LfoShape::spec_from_code(b[p]) is None
                        || LfoTriggerMode::spec_from_code(b[p + 2]) is None,
                }
            }),
    {
        let shape = reader.read();
        let dest = reader.read();
        let trigger = reader.read();
        let freq = reader.read();
        let amount = reader.read();
        let retrigger = reader.read();
        let shape = match LfoShape::from_code(shape) {
            Some(s) => s,
            None => {
                return Err(ParseError("Invalid LFO shape".to_string()));
            },
        };
        let trigger_mode = match LfoTriggerMode::from_code(trigger) {
            Some(t) => t,
            None => {
                return Err(ParseError("Invalid lfo trigger mode".to_string()));
            },
        };
        Ok(Self { shape, dest, trigger_mode, freq, amount, retrigger })
    }

    /// Parse the tagged-layout payload.
    pub fn from_reader3(reader: &mut Reader, dest: u8) -> (r: M8Result<Self>)
        requires
            old(reader).spec_pos() + 5 <= old(reader).data().len(),
        ensures
            final(reader).data() == old(reader).data(),
            final(reader).spec_pos() == old(reader).spec_pos() + 5,
            ({
                let b = old(reader).data();
                let p = old(reader).spec_pos();
                match r {
                    Ok(l) => l.dest == dest && l.amount == b[p] && LfoShape::spec_from_code(
                        b[p + 1],
                    ) == Some(l.shape) && LfoTriggerMode::spec_from_code(b[p + 2]) == Some(
                        l.trigger_mode,
                    ) && l.freq == b[p + 3] && l.retrigger == b[p + 4],
                    Err(_) => LfoShape::spec_from_code(b[p + 1]) is None
                        || LfoTriggerMode::spec_from_code(b[p + 2]) is None,
                }
            }),
    {
        let amount = reader.read();
        let shape = reader.read();
        let trigger_mode = reader.read();
        let freq = reader.read();
        let retrigger = reader.read();
        let shape = match LfoShape::from_code(shape) {
            Some(s) => s,
            None => {
                return Err(ParseError("Invalid LFO shape".to_string()));
            },
        };
        let trigger_mode = match LfoTriggerMode::from_code(trigger_mode) {
            Some(t) => t,
            None => {
                return Err(ParseError("Invalid lfo trigger mode".to_string()));
            },
        };
        Ok(Self { dest, amount, shape, trigger_mode, freq, retrigger })
    }

    /// Serialize the five payload bytes.
    pub fn write(&self, w: &mut Writer)
        requires
            old(w).spec_pos() + 5 <= old(w).data().len(),
        ensures
            final(w).data().len() == old(w).data().len(),
            final(w).spec_pos() == old(w).spec_pos() + 5,
            preserved_outside(
                old(w).data(),
                final(w).data(),
                old(w).spec_pos(),
                old(w).spec_pos() + 5,
            ),
            final(w).data()[old(w).spec_pos()] == self.amount,
            final(w).data()[old(w).spec_pos() + 1] == self.shape.spec_code(),
            final(w).data()[old(w).spec_pos() + 2] == self.trigger_mode.spec_code(),
            final(w).data()[old(w).spec_pos() + 3] == self.freq,
            final(w).data()[old(w).spec_pos() + 4] == self.retrigger,
    {
        w.write(self.amount);
        w.write(self.shape.code());
        w.write(self.trigger_mode.code());
        w.write(self.freq);
        w.write(self.retrigger);
    }

    /// Wrap this oscillator as a modulator.
    pub fn to_mod(self) -> (r: Mod)
        ensures
            r == Mod::LFO(self),
    {
        Mod::LFO(self)
    }
}

impl Mod {
    /// Parse one six-byte modulator record in the tagged layout.  The cursor
    /// advances by exactly six bytes however many payload bytes the kind
    /// uses; an unknown kind nibble is a parse failure.
    pub fn from_reader(reader: &mut Reader) -> (r: M8Result<Self>)
        requires
            old(reader).spec_pos() + 6 <= old(reader).data().len(),
        ensures
            final(reader).data() == old(reader).data(),
            final(reader).spec_pos() == old(reader).spec_pos() + 6,
            r is Ok <==> mod_valid(old(reader).data(), old(reader).spec_pos()),
            r matches Ok(m) ==> mod_matches(old(reader).data(), old(reader).spec_pos(), m)
                && mod_wf(m),
    {
        let start_pos = reader.pos();
        let first_byte = reader.read();
        let ty = first_byte >> 4;
        let dest = first_byte & 0x0F;
        proof {
            assert(ty <= 15 && dest <= 15) by (bit_vector)
                requires
                    ty == first_byte >> 4,
                    dest == first_byte & 0x0F,
            ;
        }
        let r = match ty {
            0u8 => Mod::AHDEnv(
                match AHDEnv::from_reader3(reader, dest) {
                    Ok(e) => e,
                    Err(e) => {
                        return Err(e);
                    },
                },
            ),
            1u8 => Mod::ADSREnv(
                match ADSREnv::from_reader(reader, dest) {
                    Ok(e) => e,
                    Err(e) => {
                        return Err(e);
                    },
                },
            ),
            2u8 => Mod::DrumEnv(
                match DrumEnv::from_reader(reader, dest) {
                    Ok(e) => e,
                    Err(e) => {
                        return Err(e);
                    },
                },
            ),
            3u8 => Mod::LFO(
                match LFO::from_reader3(reader, dest) {
                    Ok(l) => l,
                    Err(e) => {
                        reader.set_pos(start_pos + 6);
                        return Err(e);
                    },
                },
            ),
            4u8 => Mod::TrigEnv(
                match TrigEnv::from_reader(reader, dest) {
                    Ok(e) => e,
                    Err(e) => {
                        return Err(e);
                    },
                },
            ),
            5u8 => Mod::TrackingEnv(
                match TrackingEnv::from_reader(reader, dest) {
                    Ok(e) => e,
                    Err(e) => {
                        return Err(e);
                    },
                },
            ),
            _ => {
                reader.set_pos(start_pos + 6);
                return Err(ParseError("Unknown mod type".to_string()));
            },
        };
        reader.set_pos(start_pos + 6);
        Ok(r)
    }

    /// Serialize this modulator: the packed tag byte, the payload, then a
    /// seek so that the cursor lands exactly six bytes past where it began,
    /// whatever the kind.
    pub fn write(&self, w: &mut Writer)
        requires
            mod_wf(*self),
            old(w).spec_pos() + 6 <= old(w).data().len(),
        ensures
            final(w).data().len() == old(w).data().len(),
            final(w).spec_pos() == old(w).spec_pos() + 6,
            preserved_outside(
                old(w).data(),
                final(w).data(),
                old(w).spec_pos(),
                old(w).spec_pos() + 6,
            ),
            mod_matches(final(w).data(), old(w).spec_pos(), *self),
            mod_valid(final(w).data(), old(w).spec_pos()),
            (self matches Mod::AHDEnv(_) || self matches Mod::DrumEnv(_) || self matches
                Mod::TrackingEnv(_)) ==> final(w).data()[old(w).spec_pos() + 5] == old(w).data()[
                old(w).spec_pos() + 5],
    {
        let start = w.pos();
        match self {
            Mod::AHDEnv(env) => {
                let d = env.dest;
                proof {
                    assert(d >> 4 == 0 && (d & 0x0F) == d) by (bit_vector)
                        requires
                            d < 16,
                    ;
                }
                w.write(d);
                env.write(w);
            },
            Mod::ADSREnv(env) => {
                let d = env.dest;
                let tag: u8 = (1u8 << 4) | d;
                proof {
                    assert(tag >> 4 == 1 && (tag & 0x0F) == d) by (bit_vector)
                        requires
                            tag == (1u8 << 4) | d,
                            d < 16,
                    ;
                }
                w.write(tag);
                env.write(w);
            },
            Mod::DrumEnv(env) => {
                let d = env.dest;
                let tag: u8 = (2u8 << 4) | d;
                proof {
                    assert(tag >> 4 == 2 && (tag & 0x0F) == d) by (bit_vector)
                        requires
                            tag == (2u8 << 4) | d,
                            d < 16,
                    ;
                }
                w.write(tag);
                env.write(w);
            },
            Mod::LFO(lfo) => {
                let d = lfo.dest;
                let tag: u8 = (3u8 << 4) | d;
                proof {
                    assert(tag >> 4 == 3 && (tag & 0x0F) == d) by (bit_vector)
                        requires
                            tag == (3u8 << 4) | d,
                            d < 16,
                    ;
                }
                w.write(tag);
                lfo.write(w);
            },
            Mod::TrigEnv(env) => {
                let d = env.dest;
                let tag: u8 = (4u8 << 4) | d;
                proof {
                    assert(tag >> 4 == 4 && (tag & 0x0F) == d) by (bit_vector)
                        requires
                            tag == (4u8 << 4) | d,
                            d < 16,
                    ;
                }
                w.write(tag);
                env.write(w);
            },
            Mod::TrackingEnv(env) => {
                let d = env.dest;
                let tag: u8 = (5u8 << 4) | d;
                proof {
                    assert(tag >> 4 == 5 && (tag & 0x0F) == d) by (bit_vector)
                        requires
                            tag == (5u8 << 4) | d,
                            d < 16,
                    ;
                }
                w.write(tag);
                env.write(w);
            },
        }
        w.seek(start + 6);
    }
}

} // verus!

//! Parameters shared by every synth-backed instrument kind: the packed
//! transpose/EQ byte, the limiter type, and the synth-parameter block with
//! its four modulator slots.
//!
//! The block layout depends on the format revision: from 4.1 the associated
//! EQ index lives one byte before the modulators instead of inside the
//! transpose byte, and before 3.0 the modulators use a legacy fixed
//! encoding.

use crate::instruments::modulator::{
    mod_matches, mod_valid, mod_wf, AHDEnv, Mod, LfoShape, LfoTriggerMode, LFO,
};
use crate::reader::{M8Result, ParseError, Reader};
use crate::version::Version;
use crate::writer::{preserved_outside, Writer};
use vstd::prelude::*;

verus! {

broadcast use crate::reader::lemma_reader_pos_nonneg, crate::reader::lemma_reader_data_bound, crate::writer::lemma_writer_pos_nonneg, crate::writer::lemma_writer_data_bound;

/// Number of modulator slots every instrument owns.
pub const MODULATOR_COUNT: usize = 4;

/// Transpose flag and EQ number as unpacked from one byte: the flag in bit
/// zero, the EQ index in the remaining seven bits.
#[derive(PartialEq, Eq, Structural, Copy, Clone, Debug)]
pub struct TranspEq {
    pub transpose: bool,
    pub eq: u8,
}

impl Default for TranspEq {
    fn default() -> (r: Self)
        ensures
            r == (TranspEq { transpose: false, eq: 0 }),
    {
        TranspEq { transpose: false, eq: 0 }
    }
}

/// The packed byte this transpose/EQ pair serializes to.
pub open spec fn transp_eq_byte(t: TranspEq) -> u8 {
    (if t.transpose {
        1u8
    } else {
        0u8
    }) | (t.eq << 1)
}

impl TranspEq {
    /// Build the pair that a serializer packs: from revision 4.1 the EQ
    /// index no longer lives in this byte and is written as zero.
    pub fn from(ver: Version, transpose: bool, eq: u8) -> (r: TranspEq)
        ensures
            r.transpose == transpose,
            r.eq == if ver.spec_at_least(4, 1) {
                0u8
            } else {
                eq
            },
    {
        if ver.at_least(4, 1) {
            Self { transpose, eq: 0x00 }
        } else {
            Self { transpose, eq }
        }
    }

    /// Unpack the byte read from disk: from revision 4.1 the EQ bits are
    /// ignored.
    pub fn from_version(ver: Version, value: u8) -> (r: TranspEq)
        ensures
            r.transpose == ((value & 1) != 0),
            r.eq == if ver.spec_at_least(4, 1) {
                0u8
            } else {
                value >> 1
            },
            r.eq < 128,
    {
        proof {
            assert(value >> 1 < 128) by (bit_vector);
        }
        if ver.at_least(4, 1) {
            Self { transpose: (value & 1) != 0, eq: 0x00 }
        } else {
            Self { transpose: (value & 1) != 0, eq: value >> 1 }
        }
    }

    /// Pack the pair back into its byte.
    pub fn to_byte(self) -> (r: u8)
        requires
            self.eq < 128,
        ensures
            r == transp_eq_byte(self),
            (r & 1 != 0) == self.transpose,
            r >> 1 == self.eq,
    {
        let t: u8 = if self.transpose {
            1
        } else {
            0
        };
        let e = self.eq;
        let packed: u8 = t | (e << 1);
        proof {
            assert((packed & 1 != 0) == (t == 1) && packed >> 1 == e) by (bit_vector)
                requires
                    packed == t | (e << 1),
                    t == 1 || t == 0,
                    e < 128,
            ;
        }
        packed
    }
}

/// Output limiter mode, a closed set of eight values.
#[derive(PartialEq, Eq, Structural, Clone, Copy, Debug)]
pub struct LimitType(pub u8);

impl LimitType {
    /// Validate a limiter byte: only values below eight are defined.
    pub fn try_from(value: u8) -> (r: M8Result<LimitType>)
        ensures
            r is Ok <==> value < 8,
            r matches Ok(l) ==> l.0 == value,
    {
        if value < 8 {
            Ok(LimitType(value))
        } else {
            Err(ParseError("Invalid limit type".to_string()))
        }
    }

    /// The raw limiter code.
    pub fn id(self) -> (r: u8)
        ensures
            r == self.0,
    {
        let LimitType(v) = self;
        v
    }
}

/// Common synth parameters: mixer and filter settings, the associated EQ
/// slot, and exactly four modulators.
#[derive(PartialEq, Clone, Debug)]
pub struct SynthParams {
    pub volume: u8,
    pub pitch: u8,
    pub fine_tune: u8,
    pub filter_type: u8,
    pub filter_cutoff: u8,
    pub filter_res: u8,
    pub amp: u8,
    pub limit: LimitType,
    pub mixer_pan: u8,
    pub mixer_dry: u8,
    pub mixer_chorus: u8,
    pub mixer_delay: u8,
    pub mixer_reverb: u8,
    pub associated_eq: u8,
    pub mods: Vec<Mod>,
}

/// A synth-parameter block that can be serialized: a defined limiter,
/// exactly four modulators, each with an in-range destination.
pub open spec fn synth_params_wf(sp: SynthParams) -> bool {
    &&& sp.limit.0 < 8
    &&& sp.mods@.len() == 4
    &&& forall|i: int| 0 <= i < 4 ==> mod_wf(#[trigger] sp.mods@[i])
}

/// The ten fixed bytes at `q` plus the four modulators at
/// `q + 10 + mo` hold exactly this block; the associated EQ comes from the
/// overlay byte (revision 4.1), the packed transpose byte (4.0) or the
/// "none" sentinel (older).
pub open spec fn synth_params_matches(
    b: Seq<u8>,
    q: int,
    ver: Version,
    eq: u8,
    mo: int,
    sp: SynthParams,
) -> bool {
    &&& sp.filter_type == b[q]
    &&& sp.filter_cutoff == b[q + 1]
    &&& sp.filter_res == b[q + 2]
    &&& sp.amp == b[q + 3]
    &&& sp.limit.0 == b[q + 4]
    &&& sp.mixer_pan == b[q + 5]
    &&& sp.mixer_dry == b[q + 6]
    &&& sp.mixer_chorus == b[q + 7]
    &&& sp.mixer_delay == b[q + 8]
    &&& sp.mixer_reverb == b[q + 9]
    &&& sp.associated_eq == if ver.spec_at_least(4, 1) {
        b[q + 10 + mo - 1]
    } else if ver.spec_at_least(4, 0) {
        eq
    } else {
        0xFFu8
    }
    &&& sp.mods@.len() == 4
    &&& forall|i: int| 0 <= i < 4 ==> mod_matches(b, q + 10 + mo + 6 * i, #[trigger] sp.mods@[i])
}

/// The bytes at `q` decode to a synth-parameter block: limiter in range and
/// all four modulators valid.
pub open spec fn synth_params_valid(b: Seq<u8>, q: int, mo: int) -> bool {
    &&& b[q + 4] < 8
    &&& forall|i: int| 0 <= i < 4 ==> #[trigger] mod_valid(b, q + 10 + mo + 6 * i)
}

/// The four modulators at `p` (six bytes each) hold exactly `mods`.
pub open spec fn mods_match(b: Seq<u8>, p: int, mods: Seq<Mod>) -> bool {
    &&& mods.len() == 4
    &&& forall|i: int| 0 <= i < 4 ==> mod_matches(b, p + 6 * i, #[trigger] mods[i])
}

/// All four modulator records at `p` are decodable.
pub open spec fn mods_valid(b: Seq<u8>, p: int) -> bool {
    forall|i: int| 0 <= i < 4 ==> #[trigger] mod_valid(b, p + 6 * i)
}

/// The legacy pre-3.0 envelope record at `p`: destination byte first, then
/// the four parameters, then one padding byte.
pub open spec fn ahd2_matches(b: Seq<u8>, p: int, e: AHDEnv) -> bool {
    &&& e.dest == b[p]
    &&& e.amount == b[p + 1]
    &&& e.attack == b[p + 2]
    &&& e.hold == b[p + 3]
    &&& e.decay == b[p + 4]
}

/// The legacy pre-3.0 oscillator record at `p`: shape, destination and
/// trigger bytes first.
pub open spec fn lfo2_matches(b: Seq<u8>, p: int, l: LFO) -> bool {
    &&& LfoShape::spec_from_code(b[p]) == Some(l.shape)
    &&& l.dest == b[p + 1]
    &&& LfoTriggerMode::spec_from_code(b[p + 2]) == Some(l.trigger_mode)
    &&& l.freq == b[p + 3]
    &&& l.amount == b[p + 4]
    &&& l.retrigger == b[p + 5]
}

/// The legacy oscillator record at `p` is decodable.
pub open spec fn lfo2_valid(b: Seq<u8>, p: int) -> bool {
    LfoShape::spec_from_code(b[p]) is Some && LfoTriggerMode::spec_from_code(b[p + 2]) is Some
}

/// The legacy pre-3.0 block at `q` holds exactly this block: ten fixed
/// bytes, two envelopes and two oscillators, no associated EQ.
pub open spec fn synth_params2_matches(b: Seq<u8>, q: int, sp: SynthParams) -> bool {
    &&& sp.filter_type == b[q]
    &&& sp.filter_cutoff == b[q + 1]
    &&& sp.filter_res == b[q + 2]
    &&& sp.amp == b[q + 3]
    &&& sp.limit.0 == b[q + 4]
    &&& sp.mixer_pan == b[q + 5]
    &&& sp.mixer_dry == b[q + 6]
    &&& sp.mixer_chorus == b[q + 7]
    &&& sp.mixer_delay == b[q + 8]
    &&& sp.mixer_reverb == b[q + 9]
    &&& sp.associated_eq == 0xFFu8
    &&& sp.mods@.len() == 4
    &&& sp.mods@[0] matches Mod::AHDEnv(e) && ahd2_matches(b, q + 10, e)
    &&& sp.mods@[1] matches Mod::AHDEnv(e) && ahd2_matches(b, q + 16, e)
    &&& sp.mods@[2] matches Mod::LFO(l) && lfo2_matches(b, q + 22, l)
    &&& sp.mods@[3] matches Mod::LFO(l) && lfo2_matches(b, q + 28, l)
}

/// The legacy pre-3.0 block at `q` is decodable: limiter in range, both
/// oscillators valid.
pub open spec fn synth_params2_valid(b: Seq<u8>, q: int) -> bool {
    &&& b[q + 4] < 8
    &&& lfo2_valid(b, q + 22)
    &&& lfo2_valid(b, q + 28)
}

/// The synth-parameter block predicates depend only on the bytes from `q`
/// to the end of the modulators.
pub proof fn lemma_synth_params_frame(
    b1: Seq<u8>,
    b2: Seq<u8>,
    q: int,
    ver: Version,
    eq: u8,
    mo: int,
    sp: SynthParams,
)
    requires
        1 <= mo,
        forall|k: int| q <= k < q + 10 + mo + 24 ==> #[trigger] b2[k] == b1[k],
    ensures
        synth_params_valid(b2, q, mo) == synth_params_valid(b1, q, mo),
        synth_params_matches(b2, q, ver, eq, mo, sp) == synth_params_matches(b1, q, ver, eq, mo, sp),
{
    assert(b2[q] == b1[q]);
    assert(b2[q + 1] == b1[q + 1]);
    assert(b2[q + 2] == b1[q + 2]);
    assert(b2[q + 3] == b1[q + 3]);
    assert(b2[q + 4] == b1[q + 4]);
    assert(b2[q + 5] == b1[q + 5]);
    assert(b2[q + 6] == b1[q + 6]);
    assert(b2[q + 7] == b1[q + 7]);
    assert(b2[q + 8] == b1[q + 8]);
    assert(b2[q + 9] == b1[q + 9]);
    assert(b2[q + 10 + mo - 1] == b1[q + 10 + mo - 1]);
    assert forall|k: int| q + 10 + mo <= k < q + 10 + mo + 24 implies #[trigger] b2[k] == b1[
        k] by {
        assert(b2[k] == b1[k]);
    }
    if sp.mods@.len() == 4 {
        proof_mods_frame(b1, b2, q + 10 + mo, sp.mods@);
    } else {
        proof_mods_valid_frame(b1, b2, q + 10 + mo);
    }
}

/// Both modulator-block predicates depend only on the twenty-four bytes at
/// `p`.
pub proof fn proof_mods_frame(b1: Seq<u8>, b2: Seq<u8>, p: int, mods: Seq<Mod>)
    requires
        mods.len() == 4,
        forall|k: int| p <= k < p + 24 ==> #[trigger] b2[k] == b1[k],
    ensures
        mods_valid(b2, p) == mods_valid(b1, p),
        mods_match(b2, p, mods) == mods_match(b1, p, mods),
{
    proof_mods_valid_frame(b1, b2, p);
    assert forall|i: int|
        #![trigger mod_matches(b2, p + 6 * i, mods[i])]
        #![trigger mod_matches(b1, p + 6 * i, mods[i])]
        0 <= i < 4 implies mod_matches(b2, p + 6 * i, mods[i]) == mod_matches(
        b1,
        p + 6 * i,
        mods[i],
    ) by {
        let q = p + 6 * i;
        assert forall|k: int| q <= k < q + 6 implies #[trigger] b2[k] == b1[k] by {
            assert(b2[k] == b1[k]);
        }
        crate::instruments::modulator::lemma_mod_frame(b1, b2, q, mods[i]);
    }
}

/// The modulator-block validity depends only on the twenty-four bytes at
/// `p`.
pub proof fn proof_mods_valid_frame(b1: Seq<u8>, b2: Seq<u8>, p: int)
    requires
        forall|k: int| p <= k < p + 24 ==> #[trigger] b2[k] == b1[k],
    ensures
        mods_valid(b2, p) == mods_valid(b1, p),
{
    assert forall|i: int|
        #![trigger mod_valid(b2, p + 6 * i)]
        #![trigger mod_valid(b1, p + 6 * i)]
        0 <= i < 4 implies mod_valid(b2, p + 6 * i) == mod_valid(b1, p + 6 * i) by {
        let q = p + 6 * i;
        assert forall|k: int| q <= k < q + 6 implies #[trigger] b2[k] == b1[k] by {
            assert(b2[k] == b1[k]);
        }
        crate::instruments::modulator::lemma_mod_frame(
            b1,
            b2,
            q,
            Mod::AHDEnv(AHDEnv { dest: 0, amount: 0, attack: 0, hold: 0, decay: 0 }),
        );
    }
}

/// A block that matches the bytes and is well-formed certifies that the
/// bytes are decodable.
pub proof fn lemma_synth_params_matches_valid(
    b: Seq<u8>,
    q: int,
    ver: Version,
    eq: u8,
    mo: int,
    sp: SynthParams,
)
    requires
        synth_params_matches(b, q, ver, eq, mo, sp),
        synth_params_wf(sp),
    ensures
        synth_params_valid(b, q, mo),
{
    assert forall|i: int| 0 <= i < 4 implies #[trigger] mod_valid(b, q + 10 + mo + 6 * i) by {
        assert(mod_matches(b, q + 10 + mo + 6 * i, sp.mods@[i]));
        assert(mod_wf(sp.mods@[i]));
    }
}

/// The block predicates pin every field: two blocks matching the same
/// bytes under the same parameters have equal fields and equal modulators.
pub proof fn lemma_synth_params_matches_unique(
    b: Seq<u8>,
    q: int,
    ver: Version,
    eq: u8,
    mo: int,
    sp1: SynthParams,
    sp2: SynthParams,
)
    requires
        synth_params_matches(b, q, ver, eq, mo, sp1),
        synth_params_matches(b, q, ver, eq, mo, sp2),
        sp1.volume == sp2.volume,
        sp1.pitch == sp2.pitch,
        sp1.fine_tune == sp2.fine_tune,
    ensures
        crate::instruments::synth_params_equiv(sp1, sp2),
{
    assert forall|i: int| 0 <= i < 4 implies #[trigger] sp1.mods@[i] == sp2.mods@[i] by {
        crate::instruments::modulator::lemma_mod_matches_unique(
            b,
            q + 10 + mo + 6 * i,
            sp1.mods@[i],
            sp2.mods@[i],
        );
    }
    assert(sp1.mods@ =~= sp2.mods@);
}

/// The legacy block predicate pins every field likewise.
pub proof fn lemma_synth_params2_matches_unique(
    b: Seq<u8>,
    q: int,
    sp1: SynthParams,
    sp2: SynthParams,
)
    requires
        synth_params2_matches(b, q, sp1),
        synth_params2_matches(b, q, sp2),
        sp1.volume == sp2.volume,
        sp1.pitch == sp2.pitch,
        sp1.fine_tune == sp2.fine_tune,
    ensures
        crate::instruments::synth_params_equiv(sp1, sp2),
{
    assert(sp1.mods@[0] == sp2.mods@[0]);
    assert(sp1.mods@[1] == sp2.mods@[1]);
    assert(sp1.mods@[2] == sp2.mods@[2]);
    assert(sp1.mods@[3] == sp2.mods@[3]);
    assert(sp1.mods@ =~= sp2.mods@);
}

/// Read the four consecutive modulator records at the cursor.
fn read_mods(reader: &mut Reader) -> (r: M8Result<Vec<Mod>>)
    requires
        old(reader).spec_pos() + 24 <= old(reader).data().len(),
    ensures
        final(reader).data() == old(reader).data(),
        r is Ok ==> final(reader).spec_pos() == old(reader).spec_pos() + 24,
        r is Ok <==> mods_valid(old(reader).data(), old(reader).spec_pos()),
        r matches Ok(mods) ==> mods_match(old(reader).data(), old(reader).spec_pos(), mods@) && (
        forall|i: int| 0 <= i < 4 ==> mod_wf(#[trigger] mods@[i])),
{
    let ghost b = reader.data();
    let ghost p = reader.spec_pos();
    let m0 = match Mod::from_reader(reader) {
        Ok(m) => m,
        Err(e) => {
            proof {
                assert(!mod_valid(b, p + 6 * 0));
            }
            return Err(e);
        },
    };
    let m1 = match Mod::from_reader(reader) {
        Ok(m) => m,
        Err(e) => {
            proof {
                assert(!mod_valid(b, p + 6 * 1));
            }
            return Err(e);
        },
    };
    let m2 = match Mod::from_reader(reader) {
        Ok(m) => m,
        Err(e) => {
            proof {
                assert(!mod_valid(b, p + 6 * 2));
            }
            return Err(e);
        },
    };
    let m3 = match Mod::from_reader(reader) {
        Ok(m) => m,
        Err(e) => {
            proof {
                assert(!mod_valid(b, p + 6 * 3));
            }
            return Err(e);
        },
    };
    let mut mods: Vec<Mod> = Vec::new();
    mods.push(m0);
    mods.push(m1);
    mods.push(m2);
    mods.push(m3);
    proof {
        assert(mod_valid(b, p + 6 * 0) && mod_matches(b, p + 6 * 0, mods@[0]));
        assert(mod_valid(b, p + 6 * 1) && mod_matches(b, p + 6 * 1, mods@[1]));
        assert(mod_valid(b, p + 6 * 2) && mod_matches(b, p + 6 * 2, mods@[2]));
        assert(mod_valid(b, p + 6 * 3) && mod_matches(b, p + 6 * 3, mods@[3]));
        assert forall|i: int| 0 <= i < 4 implies #[trigger] mod_valid(b, p + 6 * i) by {
            assert(i == 0 || i == 1 || i == 2 || i == 3);
        }
    }
    Ok(mods)
}

impl SynthParams {
    /// Attach an instrument to an EQ slot.
    pub fn set_eq(&mut self, eq: u8)
        ensures
            *final(self) == (SynthParams { associated_eq: eq, ..*old(self) }),
    {
        self.associated_eq = eq
    }

    /// Build the placeholder block used by kinds that only carry modulators,
    /// for format revisions before 3.0 (which had no tagged modulators at
    /// all): everything zero, four default envelopes.
    pub fn mod_only2(_reader: &mut Reader) -> (r: M8Result<Self>)
        ensures
            *final(_reader) == *old(_reader),
            r matches Ok(sp) ==> synth_params_wf(sp) && sp.volume == 0 && sp.pitch == 0
                && sp.fine_tune == 0 && sp.filter_type == 0 && sp.filter_cutoff == 0
                && sp.filter_res == 0 && sp.amp == 0 && sp.limit.0 == 0 && sp.mixer_pan == 0
                && sp.mixer_dry == 0 && sp.mixer_chorus == 0 && sp.mixer_delay == 0
                && sp.mixer_reverb == 0 && sp.associated_eq == 0xFF && sp.mods@ == Seq::new(
                4,
                |i: int| Mod::AHDEnv(AHDEnv { dest: 0, amount: 0, attack: 0, hold: 0, decay: 0 }),
            ),
            r is Ok,
    {
        let mut mods: Vec<Mod> = Vec::new();
        mods.push(AHDEnv::default().to_mod());
        mods.push(AHDEnv::default().to_mod());
        mods.push(AHDEnv::default().to_mod());
        mods.push(AHDEnv::default().to_mod());
        proof {
            assert(mods@ =~= Seq::new(
                4,
                |i: int| Mod::AHDEnv(AHDEnv { dest: 0, amount: 0, attack: 0, hold: 0, decay: 0 }),
            ));
        }
        Ok(Self {
            volume: 0,
            pitch: 0,
            fine_tune: 0,
            filter_type: 0,
            filter_cutoff: 0,
            filter_res: 0,
            amp: 0,
            limit: LimitType(0),
            mixer_pan: 0,
            mixer_dry: 0,
            mixer_chorus: 0,
            mixer_delay: 0,
            mixer_reverb: 0,
            associated_eq: 0xFF,
            mods,
        })
    }

    /// Read only the four modulators, `mod_offset` bytes past the cursor;
    /// every other field is zeroed.  Used by the MIDI-out kind.
    pub fn mod_only3(reader: &mut Reader, mod_offset: usize) -> (r: M8Result<Self>)
        requires
            old(reader).spec_pos() + mod_offset + 24 <= old(reader).data().len(),
        ensures
            final(reader).data() == old(reader).data(),
            r is Ok ==> final(reader).spec_pos() == old(reader).spec_pos() + mod_offset + 24,
            r is Ok <==> mods_valid(old(reader).data(), old(reader).spec_pos() + mod_offset),
            r matches Ok(sp) ==> synth_params_wf(sp) && mods_match(
                old(reader).data(),
                old(reader).spec_pos() + mod_offset,
                sp.mods@,
            ) && sp.volume == 0 && sp.pitch == 0 && sp.fine_tune == 0 && sp.filter_type == 0
                && sp.filter_cutoff == 0 && sp.filter_res == 0 && sp.amp == 0 && sp.limit.0 == 0
                && sp.mixer_pan == 0 && sp.mixer_dry == 0 && sp.mixer_chorus == 0
                && sp.mixer_delay == 0 && sp.mixer_reverb == 0 && sp.associated_eq == 0xFF,
    {
        let p = reader.pos();
        reader.set_pos(p + mod_offset);
        let mods = match read_mods(reader) {
            Ok(m) => m,
            Err(e) => {
                return Err(e);
            },
        };
        Ok(Self {
            volume: 0,
            pitch: 0,
            fine_tune: 0,
            filter_type: 0,
            filter_cutoff: 0,
            filter_res: 0,
            amp: 0,
            limit: LimitType(0),
            mixer_pan: 0,
            mixer_dry: 0,
            mixer_chorus: 0,
            mixer_delay: 0,
            mixer_reverb: 0,
            associated_eq: 0xFF,
            mods,
        })
    }

    /// Parse the full block in the tagged layout used from revision 3.0.
    pub fn from_reader3(
        version: Version,
        reader: &mut Reader,
        volume: u8,
        pitch: u8,
        fine_tune: u8,
        eq: u8,
        mod_offset: usize,
    ) -> (r: M8Result<Self>)
        requires
            1 <= mod_offset,
            old(reader).spec_pos() + 10 + mod_offset + 24 <= old(reader).data().len(),
        ensures
            final(reader).data() == old(reader).data(),
            r is Ok ==> final(reader).spec_pos() == old(reader).spec_pos() + 10 + mod_offset + 24,
            r is Ok <==> synth_params_valid(
                old(reader).data(),
                old(reader).spec_pos(),
                mod_offset as int,
            ),
            r matches Ok(sp) ==> synth_params_matches(
                old(reader).data(),
                old(reader).spec_pos(),
                version,
                eq,
                mod_offset as int,
                sp,
            ) && synth_params_wf(sp) && sp.volume == volume && sp.pitch == pitch && sp.fine_tune
                == fine_tune,
    {
        let filter_type = reader.read();
        let filter_cutoff = reader.read();
        let filter_res = reader.read();
        let amp = reader.read();
        let limit = reader.read();
        let mixer_pan = reader.read();
        let mixer_dry = reader.read();
        let mixer_chorus = reader.read();
        let mixer_delay = reader.read();
        let mixer_reverb = reader.read();
        let reader_pos = reader.pos();
        let associated_eq = if version.at_least(4, 1) {
            reader.set_pos(reader_pos + mod_offset - 1);
            reader.read()
        } else if version.at_least(4, 0) {
            eq
        } else {
            0xFF
        };
        reader.set_pos(reader_pos + mod_offset);
        let mods = match read_mods(reader) {
            Ok(m) => m,
            Err(e) => {
                return Err(e);
            },
        };
        let limit = match LimitType::try_from(limit) {
            Ok(l) => l,
            Err(e) => {
                return Err(e);
            },
        };
        Ok(Self {
            volume,
            pitch,
            fine_tune,
            filter_type,
            filter_cutoff,
            filter_res,
            amp,
            limit,
            mixer_pan,
            mixer_dry,
            mixer_chorus,
            mixer_delay,
            mixer_reverb,
            associated_eq,
            mods,
        })
    }

    /// Parse the legacy pre-3.0 block: ten fixed bytes, then two envelopes
    /// and two oscillators in the untagged encoding.
    pub fn from_reader2(reader: &mut Reader, volume: u8, pitch: u8, fine_tune: u8) -> (r:
        M8Result<Self>)
        requires
            old(reader).spec_pos() + 34 <= old(reader).data().len(),
        ensures
            final(reader).data() == old(reader).data(),
            r is Ok ==> final(reader).spec_pos() == old(reader).spec_pos() + 34,
            r is Ok <==> synth_params2_valid(old(reader).data(), old(reader).spec_pos()),
            r matches Ok(sp) ==> synth_params2_matches(
                old(reader).data(),
                old(reader).spec_pos(),
                sp,
            ) && sp.volume == volume && sp.pitch == pitch && sp.fine_tune == fine_tune,
    {
        let filter_type = reader.read();
        let filter_cutoff = reader.read();
        let filter_res = reader.read();
        let amp = reader.read();
        let limit_code = reader.read();
        let mixer_pan = reader.read();
        let mixer_dry = reader.read();
        let mixer_chorus = reader.read();
        let mixer_delay = reader.read();
        let mixer_reverb = reader.read();
        let e0 = match AHDEnv::from_reader2(reader) {
            Ok(e) => e,
            Err(e) => {
                return Err(e);
            },
        };
        let e1 = match AHDEnv::from_reader2(reader) {
            Ok(e) => e,
            Err(e) => {
                return Err(e);
            },
        };
        let l2 = match LFO::from_reader2(reader) {
            Ok(l) => l,
            Err(e) => {
                return Err(e);
            },
        };
        let l3 = match LFO::from_reader2(reader) {
            Ok(l) => l,
            Err(e) => {
                return Err(e);
            },
        };
        let limit = match LimitType::try_from(limit_code) {
            Ok(l) => l,
            Err(e) => {
                return Err(e);
            },
        };
        let mut mods: Vec<Mod> = Vec::new();
        mods.push(e0.to_mod());
        mods.push(e1.to_mod());
        mods.push(l2.to_mod());
        mods.push(l3.to_mod());
        Ok(Self {
            volume,
            pitch,
            fine_tune,
            filter_type,
            filter_cutoff,
            filter_res,
            amp,
            limit,
            mixer_pan,
            mixer_dry,
            mixer_chorus,
            mixer_delay,
            mixer_reverb,
            associated_eq: 0xFF,
            mods,
        })
    }

    /// Serialize the block: the ten fixed bytes, the 4.1 EQ overlay byte
    /// when the revision calls for it, then the four modulators past the
    /// kind-specific gap.
    pub fn write(&self, ver: Version, w: &mut Writer, mod_offset: usize)
        requires
            synth_params_wf(*self),
            ver.spec_at_least(4, 0),
            1 <= mod_offset,
            old(w).spec_pos() + 10 + mod_offset + 24 <= old(w).data().len(),
        ensures
            final(w).data().len() == old(w).data().len(),
            final(w).spec_pos() == old(w).spec_pos() + 10 + mod_offset + 24,
            preserved_outside(
                old(w).data(),
                final(w).data(),
                old(w).spec_pos(),
                old(w).spec_pos() + 10 + mod_offset + 24,
            ),
            synth_params_matches(
                final(w).data(),
                old(w).spec_pos(),
                ver,
                self.associated_eq,
                mod_offset as int,
                *self,
            ),
            synth_params_valid(final(w).data(), old(w).spec_pos(), mod_offset as int),
    {
        w.write(self.filter_type);
        w.write(self.filter_cutoff);
        w.write(self.filter_res);
        w.write(self.amp);
        w.write(self.limit.0);
        w.write(self.mixer_pan);
        w.write(self.mixer_dry);
        w.write(self.mixer_chorus);
        w.write(self.mixer_delay);
        w.write(self.mixer_reverb);
        let writer_pos = w.pos();
        if ver.at_least(4, 1) {
            w.seek(writer_pos + mod_offset - 1);
            w.write(self.associated_eq);
        }
        w.seek(writer_pos + mod_offset);
        self.write_four_mods(w);
    }

    /// Serialize only the modulators, `mod_offset` bytes past the cursor.
    pub fn write_modes(&self, w: &mut Writer, mod_offset: usize)
        requires
            synth_params_wf(*self),
            old(w).spec_pos() + mod_offset + 24 <= old(w).data().len(),
        ensures
            final(w).data().len() == old(w).data().len(),
            final(w).spec_pos() == old(w).spec_pos() + mod_offset + 24,
            preserved_outside(
                old(w).data(),
                final(w).data(),
                old(w).spec_pos() + mod_offset,
                old(w).spec_pos() + mod_offset + 24,
            ),
            mods_match(final(w).data(), old(w).spec_pos() + mod_offset, self.mods@),
            mods_valid(final(w).data(), old(w).spec_pos() + mod_offset),
    {
        let p = w.pos();
        w.seek(p + mod_offset);
        self.write_four_mods(w);
    }

    /// Serialize the four modulators at the cursor.
    fn write_four_mods(&self, w: &mut Writer)
        requires
            synth_params_wf(*self),
            old(w).spec_pos() + 24 <= old(w).data().len(),
        ensures
            final(w).data().len() == old(w).data().len(),
            final(w).spec_pos() == old(w).spec_pos() + 24,
            preserved_outside(
                old(w).data(),
                final(w).data(),
                old(w).spec_pos(),
                old(w).spec_pos() + 24,
            ),
            mods_match(final(w).data(), old(w).spec_pos(), self.mods@),
            mods_valid(final(w).data(), old(w).spec_pos()),
    {
        self.mods[0].write(w);
        self.mods[1].write(w);
        self.mods[2].write(w);
        self.mods[3].write(w);
        proof {
            let b = final(w).data();
            let p = old(w).spec_pos();
            assert(mod_matches(b, p + 6 * 0, self.mods@[0]));
            assert(mod_matches(b, p + 6 * 1, self.mods@[1]));
            assert(mod_matches(b, p + 6 * 2, self.mods@[2]));
            assert(mod_matches(b, p + 6 * 3, self.mods@[3]));
        }
    }
}

} // verus!

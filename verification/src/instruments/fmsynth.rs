//! The four-operator FM synthesizer instrument kind.

use crate::instruments::common::{
    synth_params2_matches, synth_params2_valid, synth_params_matches, synth_params_valid,
    synth_params_wf, SynthParams, TranspEq,
};
use crate::instruments::name_wf;
use crate::reader::{string_at, M8Result, ParseError, Reader};
use crate::version::Version;
use crate::writer::{preserved_outside, Writer};
use vstd::prelude::*;

verus! {

broadcast use crate::reader::lemma_reader_pos_nonneg, crate::reader::lemma_reader_data_bound, crate::writer::lemma_writer_pos_nonneg, crate::writer::lemma_writer_data_bound;

/// FM routing algorithm, a closed set of twelve values.
#[derive(Copy, Clone, PartialEq, Eq, Structural, Debug)]
pub struct FmAlgo(pub u8);

impl FmAlgo {
    /// Validate an algorithm byte: only values below twelve are defined.
    pub fn try_from(value: u8) -> (r: M8Result<FmAlgo>)
        ensures
            r is Ok <==> value < 12,
            r matches Ok(a) ==> a.0 == value,
    {
        if value < 12 {
            Ok(FmAlgo(value))
        } else {
            Err(ParseError("Invalid fm algo".to_string()))
        }
    }

    /// The raw algorithm code.
    pub fn id(self) -> (r: u8)
        ensures
            r == self.0,
    {
        let FmAlgo(v) = self;
        v
    }
}

/// Waveform of one FM operator.
#[derive(PartialEq, Eq, Structural, Clone, Copy, Debug)]
#[allow(non_camel_case_types)]
pub enum FMWave {
    SIN,
    SW2,
    SW3,
    SW4,
    SW5,
    SW6,
    TRI,
    SAW,
    SQR,
    PUL,
    IMP,
    NOI,
    NLP,
    NHP,
    NBP,
    CLK,
}

impl FMWave {
    /// The on-disk code of this value.
    pub open spec fn spec_code(self) -> u8 {
        match self {
            FMWave::SIN => 0,
            FMWave::SW2 => 1,
            FMWave::SW3 => 2,
            FMWave::SW4 => 3,
            FMWave::SW5 => 4,
            FMWave::SW6 => 5,
            FMWave::TRI => 6,
            FMWave::SAW => 7,
            FMWave::SQR => 8,
            FMWave::PUL => 9,
            FMWave::IMP => 10,
            FMWave::NOI => 11,
            FMWave::NLP => 12,
            FMWave::NHP => 13,
            FMWave::NBP => 14,
            FMWave::CLK => 15,
        }
    }

    /// The on-disk code of this value.
    #[verifier::when_used_as_spec(spec_code)]
    pub fn code(self) -> (r: u8)
        ensures
            r == self.spec_code(),
    {
        match self {
            FMWave::SIN => 0,
            FMWave::SW2 => 1,
            FMWave::SW3 => 2,
            FMWave::SW4 => 3,
            FMWave::SW5 => 4,
            FMWave::SW6 => 5,
            FMWave::TRI => 6,
            FMWave::SAW => 7,
            FMWave::SQR => 8,
            FMWave::PUL => 9,
            FMWave::IMP => 10,
            FMWave::NOI => 11,
            FMWave::NLP => 12,
            FMWave::NHP => 13,
            FMWave::NBP => 14,
            FMWave::CLK => 15,
        }
    }

    /// The value a code denotes, if any.
    pub open spec fn spec_from_code(v: u8) -> Option<FMWave> {
        match v {
            0u8 => Some(FMWave::SIN),
            1u8 => Some(FMWave::SW2),
            2u8 => Some(FMWave::SW3),
            3u8 => Some(FMWave::SW4),
            4u8 => Some(FMWave::SW5),
            5u8 => Some(FMWave::SW6),
            6u8 => Some(FMWave::TRI),
            7u8 => Some(FMWave::SAW),
            8u8 => Some(FMWave::SQR),
            9u8 => Some(FMWave::PUL),
            10u8 => Some(FMWave::IMP),
            11u8 => Some(FMWave::NOI),
            12u8 => Some(FMWave::NLP),
            13u8 => Some(FMWave::NHP),
            14u8 => Some(FMWave::NBP),
            15u8 => Some(FMWave::CLK),
            _ => None,
        }
    }

    /// The value a code denotes, if any.
    #[verifier::when_used_as_spec(spec_from_code)]
    pub fn from_code(v: u8) -> (r: Option<FMWave>)
        ensures
            r == Self::spec_from_code(v),
    {
        match v {
            0u8 => Some(FMWave::SIN),
            1u8 => Some(FMWave::SW2),
            2u8 => Some(FMWave::SW3),
            3u8 => Some(FMWave::SW4),
            4u8 => Some(FMWave::SW5),
            5u8 => Some(FMWave::SW6),
            6u8 => Some(FMWave::TRI),
            7u8 => Some(FMWave::SAW),
            8u8 => Some(FMWave::SQR),
            9u8 => Some(FMWave::PUL),
            10u8 => Some(FMWave::IMP),
            11u8 => Some(FMWave::NOI),
            12u8 => Some(FMWave::NLP),
            13u8 => Some(FMWave::NHP),
            14u8 => Some(FMWave::NBP),
            15u8 => Some(FMWave::CLK),
            _ => None,
        }
    }
}

/// One FM operator: waveform, ratio, level, feedback, and the two
/// modulation amounts.
#[derive(PartialEq, Eq, Structural, Debug, Clone, Copy)]
pub struct Operator {
    pub shape: FMWave,
    pub ratio: u8,
    pub ratio_fine: u8,
    pub level: u8,
    pub feedback: u8,
    pub retrigger: u8,
    pub mod_a: u8,
    pub mod_b: u8,
}

impl Default for Operator {
    fn default() -> (r: Self)
        ensures
            r == (Operator {
                shape: FMWave::SIN,
                ratio: 0,
                ratio_fine: 0,
                level: 0,
                feedback: 0,
                retrigger: 0,
                mod_a: 0,
                mod_b: 0,
            }),
    {
        Operator {
            shape: FMWave::SIN,
            ratio: 0,
            ratio_fine: 0,
            level: 0,
            feedback: 0,
            retrigger: 0,
            mod_a: 0,
            mod_b: 0,
        }
    }
}

/// The FM synthesizer: algorithm, four operators and four modulation
/// assignments over the shared synth-parameter block.
#[derive(PartialEq, Debug, Clone)]
pub struct FMSynth {
    pub number: u8,
    pub name: Vec<u8>,
    pub transpose: bool,
    pub table_tick: u8,
    pub synth_params: SynthParams,
    pub algo: FmAlgo,
    pub operators: Vec<Operator>,
    pub mod1: u8,
    pub mod2: u8,
    pub mod3: u8,
    pub mod4: u8,
}

/// Gap between the fixed synth-parameter bytes and the modulators for this
/// kind.
pub const FMSYNTH_MOD_OFFSET: usize = 2;

/// The operator fields at their revision-1.4 positions.
pub open spec fn fm_ops_matches(b: Seq<u8>, h: int, ops: Seq<Operator>) -> bool {
    &&& ops.len() == 4
    &&& forall|i: int|
        0 <= i < 4 ==> {
            let op = #[trigger] ops[i];
            &&& FMWave::spec_from_code(b[h + 18 + i]) == Some(op.shape)
            &&& op.ratio == b[h + 22 + 2 * i]
            &&& op.ratio_fine == b[h + 23 + 2 * i]
            &&& op.level == b[h + 30 + 2 * i]
            &&& op.feedback == b[h + 31 + 2 * i]
            &&& op.mod_a == b[h + 38 + i]
            &&& op.mod_b == b[h + 42 + i]
            &&& op.retrigger == 0
        }
}

/// The operator fields at their pre-1.4 positions: no waveform bytes on
/// disk, every shape defaulting to `SIN`.
pub open spec fn fm_ops_matches_legacy(b: Seq<u8>, h: int, ops: Seq<Operator>) -> bool {
    &&& ops.len() == 4
    &&& forall|i: int|
        0 <= i < 4 ==> {
            let op = #[trigger] ops[i];
            &&& op.shape == FMWave::SIN
            &&& op.ratio == b[h + 18 + 2 * i]
            &&& op.ratio_fine == b[h + 19 + 2 * i]
            &&& op.level == b[h + 26 + 2 * i]
            &&& op.feedback == b[h + 27 + 2 * i]
            &&& op.mod_a == b[h + 34 + i]
            &&& op.mod_b == b[h + 38 + i]
            &&& op.retrigger == 0
        }
}

/// `fm_ops_matches` depends only on the operator bytes.
pub proof fn lemma_fm_ops_frame(b1: Seq<u8>, b2: Seq<u8>, h: int, ops: Seq<Operator>)
    requires
        forall|k: int| h + 18 <= k < h + 46 ==> #[trigger] b2[k] == b1[k],
        fm_ops_matches(b1, h, ops),
    ensures
        fm_ops_matches(b2, h, ops),
{
    assert forall|i: int| 0 <= i < 4 implies ({
        let op = #[trigger] ops[i];
        &&& FMWave::spec_from_code(b2[h + 18 + i]) == Some(op.shape)
        &&& op.ratio == b2[h + 22 + 2 * i]
        &&& op.ratio_fine == b2[h + 23 + 2 * i]
        &&& op.level == b2[h + 30 + 2 * i]
        &&& op.feedback == b2[h + 31 + 2 * i]
        &&& op.mod_a == b2[h + 38 + i]
        &&& op.mod_b == b2[h + 42 + i]
        &&& op.retrigger == 0
    }) by {
        assert(b2[h + 18 + i] == b1[h + 18 + i]);
        assert(b2[h + 22 + 2 * i] == b1[h + 22 + 2 * i]);
        assert(b2[h + 23 + 2 * i] == b1[h + 23 + 2 * i]);
        assert(b2[h + 30 + 2 * i] == b1[h + 30 + 2 * i]);
        assert(b2[h + 31 + 2 * i] == b1[h + 31 + 2 * i]);
        assert(b2[h + 38 + i] == b1[h + 38 + i]);
        assert(b2[h + 42 + i] == b1[h + 42 + i]);
    }
}

/// The record body at `h` (the byte after the kind byte) holds exactly this
/// instrument, parsed as slot `number` under `ver`.
pub open spec fn fm_synth_matches(b: Seq<u8>, h: int, ver: Version, number: u8, fs: FMSynth) -> bool {
    &&& fs.number == number
    &&& fs.name@ == string_at(b, h, 12)
    &&& fs.transpose == ((b[h + 12] & 1) != 0)
    &&& fs.table_tick == b[h + 13]
    &&& fs.synth_params.volume == b[h + 14]
    &&& fs.synth_params.pitch == b[h + 15]
    &&& fs.synth_params.fine_tune == b[h + 16]
    &&& fs.algo.0 == b[h + 17]
    &&& if ver.spec_at_least(1, 4) {
        &&& fm_ops_matches(b, h, fs.operators@)
        &&& fs.mod1 == b[h + 46]
        &&& fs.mod2 == b[h + 47]
        &&& fs.mod3 == b[h + 48]
        &&& fs.mod4 == b[h + 49]
        &&& if ver.spec_at_least(3, 0) {
            synth_params_matches(b, h + 50, ver, b[h + 12] >> 1, 2, fs.synth_params)
        } else {
            synth_params2_matches(b, h + 50, fs.synth_params)
        }
    } else {
        &&& fm_ops_matches_legacy(b, h, fs.operators@)
        &&& fs.mod1 == b[h + 42]
        &&& fs.mod2 == b[h + 43]
        &&& fs.mod3 == b[h + 44]
        &&& fs.mod4 == b[h + 45]
        &&& synth_params2_matches(b, h + 46, fs.synth_params)
    }
}

/// The record body at `h` decodes to an FM synthesizer under `ver`.
pub open spec fn fm_synth_valid(b: Seq<u8>, h: int, ver: Version) -> bool {
    if ver.spec_at_least(1, 4) {
        &&& forall|i: int| 0 <= i < 4 ==> FMWave::spec_from_code(#[trigger] b[h + 18 + i]) is Some
        &&& if ver.spec_at_least(3, 0) {
            synth_params_valid(b, h + 50, 2)
        } else {
            synth_params2_valid(b, h + 50)
        }
    } else {
        synth_params2_valid(b, h + 46)
    }
}

/// This instrument can be serialized under `ver`.
pub open spec fn fm_synth_wf(fs: FMSynth, ver: Version) -> bool {
    &&& name_wf(fs.name@, 12)
    &&& synth_params_wf(fs.synth_params)
    &&& (ver.spec_at_least(4, 1) || fs.synth_params.associated_eq < 128)
    &&& fs.operators@.len() == 4
    &&& forall|i: int| 0 <= i < 4 ==> (#[trigger] fs.operators@[i]).retrigger == 0
}

impl FMSynth {
    /// Parse the record body, the kind byte having been consumed.
    pub fn from_reader(reader: &mut Reader, number: u8, version: Version) -> (r: M8Result<Self>)
        requires
            old(reader).spec_pos() + 214 <= old(reader).data().len(),
        ensures
            final(reader).data() == old(reader).data(),
            r is Ok <==> fm_synth_valid(old(reader).data(), old(reader).spec_pos(), version),
            r matches Ok(fs) ==> fm_synth_matches(
                old(reader).data(),
                old(reader).spec_pos(),
                version,
                number,
                fs,
            ),
            r matches Ok(fs) ==> version.spec_at_least(4, 0) ==> fm_synth_wf(fs, version),
    {
        let ghost h = old(reader).spec_pos();
        let ghost b = old(reader).data();
        let name = reader.read_string(12);
        let transp_eq = TranspEq::from_version(version, reader.read());
        let table_tick = reader.read();
        let volume = reader.read();
        let pitch = reader.read();
        let fine_tune = reader.read();
        let algo = reader.read();
        let with_shapes = version.at_least(1, 4);
        let s0: u8;
        let s1: u8;
        let s2: u8;
        let s3: u8;
        if with_shapes {
            s0 = reader.read();
            s1 = reader.read();
            s2 = reader.read();
            s3 = reader.read();
        } else {
            s0 = 0;
            s1 = 0;
            s2 = 0;
            s3 = 0;
        }
        let sh0 = match FMWave::from_code(s0) {
            Some(s) => s,
            None => {
                proof {
                    assert(FMWave::spec_from_code(b[h + 18 + 0]) is None);
                }
                return Err(ParseError("Invalid fm wave".to_string()));
            },
        };
        let sh1 = match FMWave::from_code(s1) {
            Some(s) => s,
            None => {
                proof {
                    assert(FMWave::spec_from_code(b[h + 18 + 1]) is None);
                }
                return Err(ParseError("Invalid fm wave".to_string()));
            },
        };
        let sh2 = match FMWave::from_code(s2) {
            Some(s) => s,
            None => {
                proof {
                    assert(FMWave::spec_from_code(b[h + 18 + 2]) is None);
                }
                return Err(ParseError("Invalid fm wave".to_string()));
            },
        };
        let sh3 = match FMWave::from_code(s3) {
            Some(s) => s,
            None => {
                proof {
                    assert(FMWave::spec_from_code(b[h + 18 + 3]) is None);
                }
                return Err(ParseError("Invalid fm wave".to_string()));
            },
        };
        let r0 = reader.read();
        let rf0 = reader.read();
        let r1 = reader.read();
        let rf1 = reader.read();
        let r2 = reader.read();
        let rf2 = reader.read();
        let r3 = reader.read();
        let rf3 = reader.read();
        let l0 = reader.read();
        let fb0 = reader.read();
        let l1 = reader.read();
        let fb1 = reader.read();
        let l2 = reader.read();
        let fb2 = reader.read();
        let l3 = reader.read();
        let fb3 = reader.read();
        let ma0 = reader.read();
        let ma1 = reader.read();
        let ma2 = reader.read();
        let ma3 = reader.read();
        let mb0 = reader.read();
        let mb1 = reader.read();
        let mb2 = reader.read();
        let mb3 = reader.read();
        let mod1 = reader.read();
        let mod2 = reader.read();
        let mod3 = reader.read();
        let mod4 = reader.read();
        let synth_params = if version.at_least(3, 0) {
            match SynthParams::from_reader3(
                version,
                reader,
                volume,
                pitch,
                fine_tune,
                transp_eq.eq,
                FMSYNTH_MOD_OFFSET,
            ) {
                Ok(sp) => sp,
                Err(e) => {
                    return Err(e);
                },
            }
        } else {
            match SynthParams::from_reader2(reader, volume, pitch, fine_tune) {
                Ok(sp) => sp,
                Err(e) => {
                    return Err(e);
                },
            }
        };
        let mut operators: Vec<Operator> = Vec::new();
        operators.push(
            Operator {
                shape: sh0,
                ratio: r0,
                ratio_fine: rf0,
                level: l0,
                feedback: fb0,
                retrigger: 0,
                mod_a: ma0,
                mod_b: mb0,
            },
        );
        operators.push(
            Operator {
                shape: sh1,
                ratio: r1,
                ratio_fine: rf1,
                level: l1,
                feedback: fb1,
                retrigger: 0,
                mod_a: ma1,
                mod_b: mb1,
            },
        );
        operators.push(
            Operator {
                shape: sh2,
                ratio: r2,
                ratio_fine: rf2,
                level: l2,
                feedback: fb2,
                retrigger: 0,
                mod_a: ma2,
                mod_b: mb2,
            },
        );
        operators.push(
            Operator {
                shape: sh3,
                ratio: r3,
                ratio_fine: rf3,
                level: l3,
                feedback: fb3,
                retrigger: 0,
                mod_a: ma3,
                mod_b: mb3,
            },
        );
        let fs = FMSynth {
            number,
            name,
            transpose: transp_eq.transpose,
            table_tick,
            synth_params,
            algo: FmAlgo(algo),
            operators,
            mod1,
            mod2,
            mod3,
            mod4,
        };
        proof {
            if version.spec_at_least(1, 4) {
                assert(FMWave::spec_from_code(b[h + 18 + 0]) is Some);
                assert(FMWave::spec_from_code(b[h + 18 + 1]) is Some);
                assert(FMWave::spec_from_code(b[h + 18 + 2]) is Some);
                assert(FMWave::spec_from_code(b[h + 18 + 3]) is Some);
                assert(fm_ops_matches(b, h, fs.operators@)) by {
                    assert(fs.operators@[0].ratio == b[h + 22 + 2 * 0]);
                    assert(fs.operators@[1].ratio == b[h + 22 + 2 * 1]);
                    assert(fs.operators@[2].ratio == b[h + 22 + 2 * 2]);
                    assert(fs.operators@[3].ratio == b[h + 22 + 2 * 3]);
                }
            } else {
                assert(fm_ops_matches_legacy(b, h, fs.operators@)) by {
                    assert(fs.operators@[0].ratio == b[h + 18 + 2 * 0]);
                    assert(fs.operators@[1].ratio == b[h + 18 + 2 * 1]);
                    assert(fs.operators@[2].ratio == b[h + 18 + 2 * 2]);
                    assert(fs.operators@[3].ratio == b[h + 18 + 2 * 3]);
                }
            }
        }
        Ok(fs)
    }

    /// Serialize the four operators' waveform, ratio, level, feedback and
    /// modulation bytes, which sit between the algorithm byte and the four
    /// modulation assignments.
    #[verifier::rlimit(100)]
    fn write_operators(&self, w: &mut Writer)
        requires
            self.operators@.len() == 4,
            forall|i: int| 0 <= i < 4 ==> (#[trigger] self.operators@[i]).retrigger == 0,
            old(w).spec_pos() + 28 <= old(w).data().len(),
        ensures
            final(w).data().len() == old(w).data().len(),
            final(w).spec_pos() == old(w).spec_pos() + 28,
            preserved_outside(
                old(w).data(),
                final(w).data(),
                old(w).spec_pos(),
                old(w).spec_pos() + 28,
            ),
            fm_ops_matches(final(w).data(), old(w).spec_pos() - 18, self.operators@),
    {
        let ghost h = old(w).spec_pos() - 18;
        w.write(self.operators[0].shape.code());
        w.write(self.operators[1].shape.code());
        w.write(self.operators[2].shape.code());
        w.write(self.operators[3].shape.code());
        w.write(self.operators[0].ratio);
        w.write(self.operators[0].ratio_fine);
        w.write(self.operators[1].ratio);
        w.write(self.operators[1].ratio_fine);
        w.write(self.operators[2].ratio);
        w.write(self.operators[2].ratio_fine);
        w.write(self.operators[3].ratio);
        w.write(self.operators[3].ratio_fine);
        w.write(self.operators[0].level);
        w.write(self.operators[0].feedback);
        w.write(self.operators[1].level);
        w.write(self.operators[1].feedback);
        w.write(self.operators[2].level);
        w.write(self.operators[2].feedback);
        w.write(self.operators[3].level);
        w.write(self.operators[3].feedback);
        w.write(self.operators[0].mod_a);
        w.write(self.operators[1].mod_a);
        w.write(self.operators[2].mod_a);
        w.write(self.operators[3].mod_a);
        w.write(self.operators[0].mod_b);
        w.write(self.operators[1].mod_b);
        w.write(self.operators[2].mod_b);
        w.write(self.operators[3].mod_b);
        proof {
            let b = final(w).data();
            assert(fm_ops_matches(b, h, self.operators@)) by {
                assert(self.operators@[0].retrigger == 0);
                assert(self.operators@[1].retrigger == 0);
                assert(self.operators@[2].retrigger == 0);
                assert(self.operators@[3].retrigger == 0);
                assert forall|i: int| 0 <= i < 4 implies ({
                    let op = #[trigger] self.operators@[i];
                    &&& FMWave::spec_from_code(b[h + 18 + i]) == Some(op.shape)
                    &&& op.ratio == b[h + 22 + 2 * i]
                    &&& op.ratio_fine == b[h + 23 + 2 * i]
                    &&& op.level == b[h + 30 + 2 * i]
                    &&& op.feedback == b[h + 31 + 2 * i]
                    &&& op.mod_a == b[h + 38 + i]
                    &&& op.mod_b == b[h + 42 + i]
                    &&& op.retrigger == 0
                }) by {
                    assert(i == 0 || i == 1 || i == 2 || i == 3);
                }
            }
        }
    }

    /// Serialize the record body, the kind byte having been written.
    #[verifier::rlimit(100)]
    pub fn write(&self, ver: Version, w: &mut Writer)
        requires
            fm_synth_wf(*self, ver),
            ver.spec_at_least(4, 0),
            old(w).spec_pos() + 214 <= old(w).data().len(),
        ensures
            final(w).data().len() == old(w).data().len(),
            preserved_outside(
                old(w).data(),
                final(w).data(),
                old(w).spec_pos(),
                old(w).spec_pos() + 214,
            ),
            fm_synth_matches(final(w).data(), old(w).spec_pos(), ver, self.number, *self),
            fm_synth_valid(final(w).data(), old(w).spec_pos(), ver),
    {
        let ghost h = old(w).spec_pos();
        w.write_string(&self.name, 12);
        let te = TranspEq::from(ver, self.transpose, self.synth_params.associated_eq);
        w.write(te.to_byte());
        w.write(self.table_tick);
        w.write(self.synth_params.volume);
        w.write(self.synth_params.pitch);
        w.write(self.synth_params.fine_tune);
        w.write(self.algo.0);
        self.write_operators(w);
        let ghost d_ops = w.data();
        w.write(self.mod1);
        w.write(self.mod2);
        w.write(self.mod3);
        w.write(self.mod4);
        self.synth_params.write(ver, w, FMSYNTH_MOD_OFFSET);
        proof {
            let b = final(w).data();
            assert forall|j: int| 0 <= j < self.name@.len() implies b[h + j] == self.name@[j] by {}
            if self.name@.len() < 12 {
                assert(b[h + self.name@.len()] == 0u8);
            }
            crate::reader::lemma_string_at_canonical(b, h, 12, self.name@);
            assert forall|k: int| h + 18 <= k < h + 46 implies #[trigger] b[k] == d_ops[k] by {
                assert(b[k] == d_ops[k]);
            }
            lemma_fm_ops_frame(d_ops, b, h, self.operators@);
            assert forall|i: int|
                0 <= i < 4 implies FMWave::spec_from_code(#[trigger] b[h + 18 + i]) is Some by {
                assert(FMWave::spec_from_code(b[h + 18 + i]) == Some(self.operators@[i].shape));
            }
        }
    }
}

/// A matching record still matches after writes that left its bytes alone.
pub proof fn lemma_fm_synth_frame(
    b1: Seq<u8>,
    b2: Seq<u8>,
    h: int,
    ver: Version,
    number: u8,
    fs: FMSynth,
)
    requires
        0 <= h,
        h + 214 <= b1.len(),
        b2.len() == b1.len(),
        ver.spec_at_least(3, 0),
        forall|k: int| h <= k < h + 214 ==> #[trigger] b2[k] == b1[k],
        fm_synth_matches(b1, h, ver, number, fs),
    ensures
        fm_synth_matches(b2, h, ver, number, fs),
{
    crate::reader::lemma_string_at_frame(b1, b2, h, 12);
    assert(b2[h + 12] == b1[h + 12]);
    assert(b2[h + 13] == b1[h + 13]);
    assert(b2[h + 14] == b1[h + 14]);
    assert(b2[h + 15] == b1[h + 15]);
    assert(b2[h + 16] == b1[h + 16]);
    assert(b2[h + 17] == b1[h + 17]);
    assert(b2[h + 46] == b1[h + 46]);
    assert(b2[h + 47] == b1[h + 47]);
    assert(b2[h + 48] == b1[h + 48]);
    assert(b2[h + 49] == b1[h + 49]);
    assert forall|k: int| h + 50 <= k < h + 50 + 10 + 2 + 24 implies #[trigger] b2[k]
        == b1[k] by {
        assert(b2[k] == b1[k]);
    }
    assert forall|k: int| h + 18 <= k < h + 46 implies #[trigger] b2[k] == b1[k] by {
        assert(b2[k] == b1[k]);
    }
    lemma_fm_ops_frame(b1, b2, h, fs.operators@);
    crate::instruments::common::lemma_synth_params_frame(
        b1,
        b2,
        h + 50,
        ver,
        b1[h + 12] >> 1,
        2,
        fs.synth_params,
    );
}

} // verus!

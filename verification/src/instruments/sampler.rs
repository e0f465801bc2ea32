//! The sample-player instrument kind.

use crate::instruments::common::{
    synth_params2_matches, synth_params2_valid, synth_params_matches, synth_params_valid,
    synth_params_wf, SynthParams, TranspEq,
};
use crate::instruments::name_wf;
use crate::reader::{string_at, M8Result, ParseError, Reader};
use crate::version::Version;
use crate::writer::{preserved_outside, Writer};
use vstd::prelude::*;

verus! {

broadcast use crate::reader::lemma_reader_pos_nonneg, crate::reader::lemma_reader_data_bound, crate::writer::lemma_writer_pos_nonneg, crate::writer::lemma_writer_data_bound;

/// Playback mode of the sample player.
#[derive(PartialEq, Eq, Structural, Clone, Copy, Debug)]
#[allow(non_camel_case_types)]
pub enum SamplePlayMode {
    FWD,
    REV,
    FWDLOOP,
    REVLOOP,
    FWD_PP,
    REV_PP,
    OSC,
    OSC_REV,
    OSC_PP,
}

impl SamplePlayMode {
    /// The on-disk code of this value.
    pub open spec fn spec_code(self) -> u8 {
        match self {
            SamplePlayMode::FWD => 0,
            SamplePlayMode::REV => 1,
            SamplePlayMode::FWDLOOP => 2,
            SamplePlayMode::REVLOOP => 3,
            SamplePlayMode::FWD_PP => 4,
            SamplePlayMode::REV_PP => 5,
            SamplePlayMode::OSC => 6,
            SamplePlayMode::OSC_REV => 7,
            SamplePlayMode::OSC_PP => 8,
        }
    }

    /// The on-disk code of this value.
    #[verifier::when_used_as_spec(spec_code)]
    pub fn code(self) -> (r: u8)
        ensures
            r == self.spec_code(),
    {
        match self {
            SamplePlayMode::FWD => 0,
            SamplePlayMode::REV => 1,
            SamplePlayMode::FWDLOOP => 2,
            SamplePlayMode::REVLOOP => 3,
            SamplePlayMode::FWD_PP => 4,
            SamplePlayMode::REV_PP => 5,
            SamplePlayMode::OSC => 6,
            SamplePlayMode::OSC_REV => 7,
            SamplePlayMode::OSC_PP => 8,
        }
    }

    /// The value a code denotes, if any.
    pub open spec fn spec_from_code(v: u8) -> Option<SamplePlayMode> {
        match v {
            0u8 => Some(SamplePlayMode::FWD),
            1u8 => Some(SamplePlayMode::REV),
            2u8 => Some(SamplePlayMode::FWDLOOP),
            3u8 => Some(SamplePlayMode::REVLOOP),
            4u8 => Some(SamplePlayMode::FWD_PP),
            5u8 => Some(SamplePlayMode::REV_PP),
            6u8 => Some(SamplePlayMode::OSC),
            7u8 => Some(SamplePlayMode::OSC_REV),
            8u8 => Some(SamplePlayMode::OSC_PP),
            _ => None,
        }
    }

    /// The value a code denotes, if any.
    #[verifier::when_used_as_spec(spec_from_code)]
    pub fn from_code(v: u8) -> (r: Option<SamplePlayMode>)
        ensures
            r == Self::spec_from_code(v),
    {
        match v {
            0u8 => Some(SamplePlayMode::FWD),
            1u8 => Some(SamplePlayMode::REV),
            2u8 => Some(SamplePlayMode::FWDLOOP),
            3u8 => Some(SamplePlayMode::REVLOOP),
            4u8 => Some(SamplePlayMode::FWD_PP),
            5u8 => Some(SamplePlayMode::REV_PP),
            6u8 => Some(SamplePlayMode::OSC),
            7u8 => Some(SamplePlayMode::OSC_REV),
            8u8 => Some(SamplePlayMode::OSC_PP),
            _ => None,
        }
    }
}

/// The sample player: a sample path, slicing and playback parameters over
/// the shared synth-parameter block.
#[derive(PartialEq, Debug, Clone)]
pub struct Sampler {
    pub number: u8,
    pub name: Vec<u8>,
    pub transpose: bool,
    pub table_tick: u8,
    pub synth_params: SynthParams,
    pub sample_path: Vec<u8>,
    pub play_mode: SamplePlayMode,
    pub slice: u8,
    pub start: u8,
    pub loop_start: u8,
    pub length: u8,
    pub degrade: u8,
}

/// Gap between the fixed synth-parameter bytes and the modulators for this
/// kind.
pub const SAMPLER_MOD_OFFSET: usize = 29;

/// The record body at `h` (the byte after the kind byte) holds exactly this
/// instrument, parsed as slot `number` under `ver`.  The sample path lives
/// at a fixed offset near the end of the record.
pub open spec fn sampler_matches(b: Seq<u8>, h: int, ver: Version, number: u8, s: Sampler) -> bool {
    &&& s.number == number
    &&& s.name@ == string_at(b, h, 12)
    &&& s.transpose == ((b[h + 12] & 1) != 0)
    &&& s.table_tick == b[h + 13]
    &&& s.synth_params.volume == b[h + 14]
    &&& s.synth_params.pitch == b[h + 15]
    &&& s.synth_params.fine_tune == b[h + 16]
    &&& SamplePlayMode::spec_from_code(b[h + 17]) == Some(s.play_mode)
    &&& s.slice == b[h + 18]
    &&& s.start == b[h + 19]
    &&& s.loop_start == b[h + 20]
    &&& s.length == b[h + 21]
    &&& s.degrade == b[h + 22]
    &&& s.sample_path@ == string_at(b, h + 86, 128)
    &&& if ver.spec_at_least(3, 0) {
        synth_params_matches(b, h + 23, ver, b[h + 12] >> 1, 29, s.synth_params)
    } else {
        synth_params2_matches(b, h + 23, s.synth_params)
    }
}

/// The record body at `h` decodes to a sample player under `ver`.
pub open spec fn sampler_valid(b: Seq<u8>, h: int, ver: Version) -> bool {
    &&& SamplePlayMode::spec_from_code(b[h + 17]) is Some
    &&& if ver.spec_at_least(3, 0) {
        synth_params_valid(b, h + 23, 29)
    } else {
        synth_params2_valid(b, h + 23)
    }
}

/// This instrument can be serialized under `ver`.
pub open spec fn sampler_wf(s: Sampler, ver: Version) -> bool {
    &&& name_wf(s.name@, 12)
    &&& name_wf(s.sample_path@, 128)
    &&& synth_params_wf(s.synth_params)
    &&& (ver.spec_at_least(4, 1) || s.synth_params.associated_eq < 128)
}

impl Sampler {
    /// Parse the record body; `start_pos` is the position of the kind byte,
    /// from which the fixed sample-path offset is taken.
    pub fn from_reader(reader: &mut Reader, start_pos: usize, number: u8, version: Version) -> (r:
        M8Result<Self>)
        requires
            old(reader).spec_pos() == start_pos + 1,
            old(reader).spec_pos() + 214 <= old(reader).data().len(),
        ensures
            final(reader).data() == old(reader).data(),
            r is Ok ==> final(reader).spec_pos() == old(reader).spec_pos() + 214,
            r is Ok <==> sampler_valid(old(reader).data(), old(reader).spec_pos(), version),
            r matches Ok(s) ==> sampler_matches(
                old(reader).data(),
                old(reader).spec_pos(),
                version,
                number,
                s,
            ),
            r matches Ok(s) ==> version.spec_at_least(4, 0) ==> sampler_wf(s, version),
    {
        let name = reader.read_string(12);
        let transp_eq = TranspEq::from_version(version, reader.read());
        let table_tick = reader.read();
        let volume = reader.read();
        let pitch = reader.read();
        let fine_tune = reader.read();
        let play_mode_code = reader.read();
        let slice = reader.read();
        let start = reader.read();
        let loop_start = reader.read();
        let length = reader.read();
        let degrade = reader.read();
        let synth_params = if version.at_least(3, 0) {
            match SynthParams::from_reader3(
                version,
                reader,
                volume,
                pitch,
                fine_tune,
                transp_eq.eq,
                SAMPLER_MOD_OFFSET,
            ) {
                Ok(sp) => sp,
                Err(e) => {
                    return Err(e);
                },
            }
        } else {
            match SynthParams::from_reader2(reader, volume, pitch, fine_tune) {
                Ok(sp) => sp,
                Err(e) => {
                    return Err(e);
                },
            }
        };
        reader.set_pos(start_pos + 0x57);
        let sample_path = reader.read_string(128);
        let play_mode = match SamplePlayMode::from_code(play_mode_code) {
            Some(m) => m,
            None => {
                return Err(ParseError("Invalid play mode".to_string()));
            },
        };
        Ok(Sampler {
            number,
            name,
            transpose: transp_eq.transpose,
            table_tick,
            synth_params,
            sample_path,
            play_mode,
            slice,
            start,
            loop_start,
            length,
            degrade,
        })
    }

    /// Serialize the record body, the kind byte having been written.
    pub fn write(&self, ver: Version, w: &mut Writer)
        requires
            sampler_wf(*self, ver),
            ver.spec_at_least(4, 0),
            old(w).spec_pos() + 214 <= old(w).data().len(),
        ensures
            final(w).data().len() == old(w).data().len(),
            preserved_outside(
                old(w).data(),
                final(w).data(),
                old(w).spec_pos(),
                old(w).spec_pos() + 214,
            ),
            sampler_matches(final(w).data(), old(w).spec_pos(), ver, self.number, *self),
            sampler_valid(final(w).data(), old(w).spec_pos(), ver),
    {
        let ghost h = old(w).spec_pos();
        let pos = w.pos();
        w.write_string(&self.name, 12);
        let te = TranspEq::from(ver, self.transpose, self.synth_params.associated_eq);
        w.write(te.to_byte());
        w.write(self.table_tick);
        w.write(self.synth_params.volume);
        w.write(self.synth_params.pitch);
        w.write(self.synth_params.fine_tune);
        w.write(self.play_mode.code());
        w.write(self.slice);
        w.write(self.start);
        w.write(self.loop_start);
        w.write(self.length);
        w.write(self.degrade);
        self.synth_params.write(ver, w, SAMPLER_MOD_OFFSET);
        let ghost d0 = w.data();
        w.seek(pos + 0x56);
        w.write_string(&self.sample_path, 128);
        proof {
            let b = final(w).data();
            assert forall|k: int| h <= k < h + 86 implies #[trigger] b[k] == d0[k] by {
                assert(b[k] == d0[k]);
            }
            assert forall|j: int| 0 <= j < self.name@.len() implies b[h + j] == self.name@[j] by {
                assert(b[h + j] == d0[h + j]);
                assert(d0[h + j] == self.name@[j]);
            }
            if self.name@.len() < 12 {
                assert(b[h + self.name@.len()] == d0[h + self.name@.len()]);
                assert(b[h + self.name@.len()] == 0u8);
            }
            crate::reader::lemma_string_at_canonical(b, h, 12, self.name@);
            assert forall|j: int| 0 <= j < self.sample_path@.len() implies b[h + 86 + j]
                == self.sample_path@[j] by {}
            if self.sample_path@.len() < 128 {
                assert(b[h + 86 + self.sample_path@.len()] == 0u8);
            }
            crate::reader::lemma_string_at_canonical(b, h + 86, 128, self.sample_path@);
            crate::instruments::common::lemma_synth_params_frame(
                d0,
                b,
                h + 23,
                ver,
                self.synth_params.associated_eq,
                29,
                self.synth_params,
            );
        }
    }
}

/// A matching record still matches after writes that left its bytes alone.
pub proof fn lemma_sampler_frame(
    b1: Seq<u8>,
    b2: Seq<u8>,
    h: int,
    ver: Version,
    number: u8,
    s: Sampler,
)
    requires
        0 <= h,
        h + 214 <= b1.len(),
        b2.len() == b1.len(),
        ver.spec_at_least(3, 0),
        forall|k: int| h <= k < h + 214 ==> #[trigger] b2[k] == b1[k],
        sampler_matches(b1, h, ver, number, s),
    ensures
        sampler_matches(b2, h, ver, number, s),
{
    crate::reader::lemma_string_at_frame(b1, b2, h, 12);
    assert(b2[h + 12] == b1[h + 12]);
    assert(b2[h + 13] == b1[h + 13]);
    assert(b2[h + 14] == b1[h + 14]);
    assert(b2[h + 15] == b1[h + 15]);
    assert(b2[h + 16] == b1[h + 16]);
    assert(b2[h + 17] == b1[h + 17]);
    assert(b2[h + 18] == b1[h + 18]);
    assert(b2[h + 19] == b1[h + 19]);
    assert(b2[h + 20] == b1[h + 20]);
    assert(b2[h + 21] == b1[h + 21]);
    assert(b2[h + 22] == b1[h + 22]);
    assert forall|k: int| h + 23 <= k < h + 23 + 10 + 29 + 24 implies #[trigger] b2[k]
        == b1[k] by {
        assert(b2[k] == b1[k]);
    }
    assert forall|k: int| h + 86 <= k < h + 86 + 128 implies #[trigger] b2[k] == b1[k] by {
        assert(b2[k] == b1[k]);
    }
    crate::reader::lemma_string_at_frame(b1, b2, h + 86, 128);
    crate::instruments::common::lemma_synth_params_frame(
        b1,
        b2,
        h + 23,
        ver,
        b1[h + 12] >> 1,
        29,
        s.synth_params,
    );
}

} // verus!

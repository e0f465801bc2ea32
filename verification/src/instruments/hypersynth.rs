//! The polyphonic hyper synthesizer instrument kind, with its chord table.

use crate::instruments::common::{
    synth_params_matches, synth_params_valid, synth_params_wf, SynthParams, TranspEq,
};
use crate::instruments::name_wf;
use crate::reader::{string_at, M8Result, Reader};
use crate::version::Version;
use crate::writer::{preserved_outside, Writer};
use vstd::prelude::*;

verus! {

broadcast use crate::reader::lemma_reader_pos_nonneg, crate::reader::lemma_reader_data_bound, crate::writer::lemma_writer_pos_nonneg, crate::writer::lemma_writer_data_bound;

/// The hyper synthesizer: a default chord, voicing parameters, and a table
/// of sixteen chords over the shared synth-parameter block.
#[derive(PartialEq, Debug, Clone)]
pub struct HyperSynth {
    pub number: u8,
    pub name: Vec<u8>,
    pub transpose: bool,
    pub table_tick: u8,
    pub synth_params: SynthParams,
    pub scale: u8,
    pub default_chord: Vec<u8>,
    pub shift: u8,
    pub swarm: u8,
    pub width: u8,
    pub subosc: u8,
    pub chords: Vec<Vec<u8>>,
}

/// Gap between the fixed synth-parameter bytes and the modulators for this
/// kind.
pub const HYPERSYNTH_MOD_OFFSET: usize = 23;

/// One seven-byte chord record at `p`: a padding byte, then six notes.
pub open spec fn chord_matches(b: Seq<u8>, p: int, c: Seq<u8>) -> bool {
    &&& c.len() == 6
    &&& forall|k: int| 0 <= k < 6 ==> #[trigger] c[k] == b[p + 1 + k]
}

/// The record body at `h` (the byte after the kind byte) holds exactly this
/// instrument, parsed as slot `number` under `ver`.
pub open spec fn hyper_synth_matches(b: Seq<u8>, h: int, ver: Version, number: u8, hs: HyperSynth) -> bool {
    &&& hs.number == number
    &&& hs.name@ == string_at(b, h, 12)
    &&& hs.transpose == ((b[h + 12] & 1) != 0)
    &&& hs.table_tick == b[h + 13]
    &&& hs.synth_params.volume == b[h + 14]
    &&& hs.synth_params.pitch == b[h + 15]
    &&& hs.synth_params.fine_tune == b[h + 16]
    &&& hs.default_chord@.len() == 7
    &&& forall|k: int| 0 <= k < 7 ==> #[trigger] hs.default_chord@[k] == b[h + 17 + k]
    &&& hs.scale == b[h + 24]
    &&& hs.shift == b[h + 25]
    &&& hs.swarm == b[h + 26]
    &&& hs.width == b[h + 27]
    &&& hs.subosc == b[h + 28]
    &&& synth_params_matches(b, h + 29, ver, b[h + 12] >> 1, 23, hs.synth_params)
    &&& hs.chords@.len() == 16
    &&& forall|i: int| 0 <= i < 16 ==> chord_matches(b, h + 86 + 7 * i, (#[trigger] hs.chords@[i])@)
}

/// The record body at `h` decodes to a hyper synthesizer.
pub open spec fn hyper_synth_valid(b: Seq<u8>, h: int, ver: Version) -> bool {
    synth_params_valid(b, h + 29, 23)
}

/// This instrument can be serialized under `ver`.
pub open spec fn hyper_synth_wf(hs: HyperSynth, ver: Version) -> bool {
    &&& name_wf(hs.name@, 12)
    &&& synth_params_wf(hs.synth_params)
    &&& (ver.spec_at_least(4, 1) || hs.synth_params.associated_eq < 128)
    &&& hs.default_chord@.len() == 7
    &&& hs.chords@.len() == 16
    &&& forall|i: int| 0 <= i < 16 ==> (#[trigger] hs.chords@[i])@.len() == 6
}

/// Read one seven-byte chord record: a padding byte, then six notes.
fn load_chord(reader: &mut Reader) -> (c: Vec<u8>)
    requires
        old(reader).spec_pos() + 7 <= old(reader).data().len(),
    ensures
        final(reader).data() == old(reader).data(),
        final(reader).spec_pos() == old(reader).spec_pos() + 7,
        chord_matches(old(reader).data(), old(reader).spec_pos(), c@),
{
    let _ = reader.read();
    let mut c: Vec<u8> = Vec::new();
    let b0 = reader.read();
    let b1 = reader.read();
    let b2 = reader.read();
    let b3 = reader.read();
    let b4 = reader.read();
    let b5 = reader.read();
    c.push(b0);
    c.push(b1);
    c.push(b2);
    c.push(b3);
    c.push(b4);
    c.push(b5);
    proof {
        assert(c@[0] == b0 && c@[1] == b1 && c@[2] == b2 && c@[3] == b3 && c@[4] == b4 && c@[5]
            == b5);
    }
    c
}

impl HyperSynth {
    /// Parse the record body, the kind byte having been consumed.  This
    /// kind exists only from format revision 3.0.
    pub fn from_reader(reader: &mut Reader, number: u8, version: Version) -> (r: M8Result<Self>)
        requires
            version.spec_at_least(3, 0),
            old(reader).spec_pos() + 214 <= old(reader).data().len(),
        ensures
            final(reader).data() == old(reader).data(),
            r is Ok <==> hyper_synth_valid(old(reader).data(), old(reader).spec_pos(), version),
            r matches Ok(hs) ==> hyper_synth_matches(
                old(reader).data(),
                old(reader).spec_pos(),
                version,
                number,
                hs,
            ),
            r matches Ok(hs) ==> version.spec_at_least(4, 0) ==> hyper_synth_wf(hs, version),
    {
        let ghost h = old(reader).spec_pos();
        let ghost b = old(reader).data();
        let name = reader.read_string(12);
        let transp_eq = TranspEq::from_version(version, reader.read());
        let table_tick = reader.read();
        let volume = reader.read();
        let pitch = reader.read();
        let fine_tune = reader.read();
        let mut default_chord: Vec<u8> = Vec::new();
        let d0 = reader.read();
        let d1 = reader.read();
        let d2 = reader.read();
        let d3 = reader.read();
        let d4 = reader.read();
        let d5 = reader.read();
        let d6 = reader.read();
        default_chord.push(d0);
        default_chord.push(d1);
        default_chord.push(d2);
        default_chord.push(d3);
        default_chord.push(d4);
        default_chord.push(d5);
        default_chord.push(d6);
        let scale = reader.read();
        let shift = reader.read();
        let swarm = reader.read();
        let width = reader.read();
        let subosc = reader.read();
        let synth_params = match SynthParams::from_reader3(
            version,
            reader,
            volume,
            pitch,
            fine_tune,
            transp_eq.eq,
            HYPERSYNTH_MOD_OFFSET,
        ) {
            Ok(sp) => sp,
            Err(e) => {
                return Err(e);
            },
        };
        let mut chords: Vec<Vec<u8>> = Vec::new();
        let mut i: usize = 0;
        while i < 16
            invariant
                0 <= h,
                h + 214 <= reader.data().len(),
                reader.data() == b,
                reader.spec_pos() == h + 86 + 7 * i,
                i <= 16,
                chords@.len() == i,
                forall|j: int|
                    0 <= j < i ==> chord_matches(b, h + 86 + 7 * j, (#[trigger] chords@[j])@),
            decreases 16 - i,
        {
            let c = load_chord(reader);
            chords.push(c);
            i = i + 1;
        }
        proof {
            assert(default_chord@[0] == d0 && default_chord@[1] == d1 && default_chord@[2] == d2
                && default_chord@[3] == d3 && default_chord@[4] == d4 && default_chord@[5] == d5
                && default_chord@[6] == d6);
        }
        Ok(HyperSynth {
            number,
            name,
            transpose: transp_eq.transpose,
            table_tick,
            synth_params,
            scale,
            default_chord,
            shift,
            swarm,
            width,
            subosc,
            chords,
        })
    }

    /// Serialize the record body, the kind byte having been written.  Each
    /// chord record gets a `0xFF` padding byte before its six notes.
    #[verifier::rlimit(100)]
    pub fn write(&self, ver: Version, w: &mut Writer)
        requires
            hyper_synth_wf(*self, ver),
            ver.spec_at_least(4, 0),
            old(w).spec_pos() + 214 <= old(w).data().len(),
        ensures
            final(w).data().len() == old(w).data().len(),
            preserved_outside(
                old(w).data(),
                final(w).data(),
                old(w).spec_pos(),
                old(w).spec_pos() + 214,
            ),
            hyper_synth_matches(final(w).data(), old(w).spec_pos(), ver, self.number, *self),
            hyper_synth_valid(final(w).data(), old(w).spec_pos(), ver),
    {
        let ghost h = old(w).spec_pos();
        w.write_string(&self.name, 12);
        let te = TranspEq::from(ver, self.transpose, self.synth_params.associated_eq);
        w.write(te.to_byte());
        w.write(self.table_tick);
        w.write(self.synth_params.volume);
        w.write(self.synth_params.pitch);
        w.write(self.synth_params.fine_tune);
        w.write(self.default_chord[0]);
        w.write(self.default_chord[1]);
        w.write(self.default_chord[2]);
        w.write(self.default_chord[3]);
        w.write(self.default_chord[4]);
        w.write(self.default_chord[5]);
        w.write(self.default_chord[6]);
        w.write(self.scale);
        w.write(self.shift);
        w.write(self.swarm);
        w.write(self.width);
        w.write(self.subosc);
        self.synth_params.write(ver, w, HYPERSYNTH_MOD_OFFSET);
        let ghost d0 = w.data();
        let mut i: usize = 0;
        while i < 16
            invariant
                0 <= h,
                h + 214 <= w.data().len(),
                w.data().len() == d0.len(),
                w.spec_pos() == h + 86 + 7 * i,
                i <= 16,
                self.chords@.len() == 16,
                forall|j: int| 0 <= j < 16 ==> (#[trigger] self.chords@[j])@.len() == 6,
                forall|j: int|
                    0 <= j < i ==> chord_matches(w.data(), h + 86 + 7 * j, (#[trigger] self.chords@[j])@),
                preserved_outside(d0, w.data(), h + 86, h + 86 + 7 * i),
            decreases 16 - i,
        {
            let ghost dprev = w.data();
            w.write(0xFF);
            let c = &self.chords[i];
            w.write(c[0]);
            w.write(c[1]);
            w.write(c[2]);
            w.write(c[3]);
            w.write(c[4]);
            w.write(c[5]);
            proof {
                assert forall|j: int|
                    0 <= j < i + 1 implies chord_matches(
                        w.data(),
                        h + 86 + 7 * j,
                        (#[trigger] self.chords@[j])@,
                    ) by {
                    if j < i {
                        assert(chord_matches(dprev, h + 86 + 7 * j, self.chords@[j]@));
                        assert forall|k: int|
                            0 <= k < 6 implies #[trigger] w.data()[h + 86 + 7 * j + 1 + k]
                            == dprev[h + 86 + 7 * j + 1 + k] by {
                            assert(w.data()[h + 86 + 7 * j + 1 + k] == dprev[h + 86 + 7 * j + 1
                                + k]);
                        }
                        assert forall|k: int|
                            0 <= k < 6 implies (self.chords@[j]@)[k] == w.data()[(h + 86 + 7 * j) + 1
                            + k] by {
                            assert((self.chords@[j]@)[k] == dprev[(h + 86 + 7 * j) + 1 + k]);
                            assert(w.data()[h + 86 + 7 * j + 1 + k] == dprev[h + 86 + 7 * j + 1
                                + k]);
                        }
                    } else {
                        assert(chord_matches(w.data(), h + 86 + 7 * i, self.chords@[i as int]@));
                    }
                }
            }
            i = i + 1;
        }
        proof {
            let b = final(w).data();
            assert forall|k: int| h <= k < h + 86 implies #[trigger] b[k] == d0[k] by {
                assert(b[k] == d0[k]);
            }
            assert forall|j: int| 0 <= j < self.name@.len() implies b[h + j] == self.name@[j] by {
                assert(b[h + j] == d0[h + j]);
                assert(d0[h + j] == self.name@[j]);
            }
            if self.name@.len() < 12 {
                assert(b[h + self.name@.len()] == d0[h + self.name@.len()]);
                assert(b[h + self.name@.len()] == 0u8);
            }
            crate::reader::lemma_string_at_canonical(b, h, 12, self.name@);
            crate::instruments::common::lemma_synth_params_frame(
                d0,
                b,
                h + 29,
                ver,
                self.synth_params.associated_eq,
                23,
                self.synth_params,
            );
        }
    }
}

/// A matching record still matches after writes that left its bytes alone.
pub proof fn lemma_hyper_synth_frame(
    b1: Seq<u8>,
    b2: Seq<u8>,
    h: int,
    ver: Version,
    number: u8,
    hs: HyperSynth,
)
    requires
        0 <= h,
        h + 214 <= b1.len(),
        b2.len() == b1.len(),
        forall|k: int| h <= k < h + 214 ==> #[trigger] b2[k] == b1[k],
        hyper_synth_matches(b1, h, ver, number, hs),
    ensures
        hyper_synth_matches(b2, h, ver, number, hs),
{
    crate::reader::lemma_string_at_frame(b1, b2, h, 12);
    assert(b2[h + 12] == b1[h + 12]);
    assert(b2[h + 13] == b1[h + 13]);
    assert(b2[h + 14] == b1[h + 14]);
    assert(b2[h + 15] == b1[h + 15]);
    assert(b2[h + 16] == b1[h + 16]);
    assert(b2[h + 17] == b1[h + 17]);
    assert(b2[h + 18] == b1[h + 18]);
    assert(b2[h + 19] == b1[h + 19]);
    assert(b2[h + 20] == b1[h + 20]);
    assert(b2[h + 21] == b1[h + 21]);
    assert(b2[h + 22] == b1[h + 22]);
    assert(b2[h + 23] == b1[h + 23]);
    assert(b2[h + 24] == b1[h + 24]);
    assert(b2[h + 25] == b1[h + 25]);
    assert(b2[h + 26] == b1[h + 26]);
    assert(b2[h + 27] == b1[h + 27]);
    assert(b2[h + 28] == b1[h + 28]);
    assert forall|k: int| h + 29 <= k < h + 29 + 10 + 23 + 24 implies #[trigger] b2[k]
        == b1[k] by {
        assert(b2[k] == b1[k]);
    }
    crate::instruments::common::lemma_synth_params_frame(
        b1,
        b2,
        h + 29,
        ver,
        b1[h + 12] >> 1,
        23,
        hs.synth_params,
    );
    assert forall|i: int| 0 <= i < 16 implies chord_matches(b2, h + 86 + 7 * i, (#[trigger] hs.chords@[i])@) by {
        assert(chord_matches(b1, h + 86 + 7 * i, hs.chords@[i]@));
        assert forall|k: int| 0 <= k < 6 implies #[trigger] (hs.chords@[i]@)[k] == b2[(h + 86 + 7
            * i) + 1 + k] by {
            assert((hs.chords@[i]@)[k] == b1[(h + 86 + 7 * i) + 1 + k]);
            assert(b2[(h + 86 + 7 * i) + 1 + k] == b1[(h + 86 + 7 * i) + 1 + k]);
        }
    }
}

} // verus!

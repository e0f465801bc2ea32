//! The external-instrument kind: MIDI routing to hardware outside the box.

use crate::instruments::common::{
    synth_params_matches, synth_params_valid, synth_params_wf, SynthParams, TranspEq,
};
use crate::instruments::midi::{cc_matches, ControlChange};
use crate::instruments::name_wf;
use crate::reader::{string_at, M8Result, Reader};
use crate::version::Version;
use crate::writer::{preserved_outside, Writer};
use vstd::prelude::*;

verus! {

broadcast use crate::reader::lemma_reader_pos_nonneg, crate::reader::lemma_reader_data_bound, crate::writer::lemma_writer_pos_nonneg, crate::writer::lemma_writer_data_bound;

/// The external instrument: input and MIDI routing, four control changes,
/// over the shared synth-parameter block.
#[derive(PartialEq, Debug, Clone)]
pub struct ExternalInst {
    pub number: u8,
    pub name: Vec<u8>,
    pub transpose: bool,
    pub table_tick: u8,
    pub synth_params: SynthParams,
    pub input: u8,
    pub port: u8,
    pub channel: u8,
    pub bank: u8,
    pub program: u8,
    pub cca: ControlChange,
    pub ccb: ControlChange,
    pub ccc: ControlChange,
    pub ccd: ControlChange,
}

/// Gap between the fixed synth-parameter bytes and the modulators for this
/// kind.
pub const EXTERNAL_INST_MOD_OFFSET: usize = 22;

/// The record body at `h` (the byte after the kind byte) holds exactly this
/// instrument, parsed as slot `number` under `ver`.
pub open spec fn external_inst_matches(b: Seq<u8>, h: int, ver: Version, number: u8, ex: ExternalInst) -> bool {
    &&& ex.number == number
    &&& ex.name@ == string_at(b, h, 12)
    &&& ex.transpose == ((b[h + 12] & 1) != 0)
    &&& ex.table_tick == b[h + 13]
    &&& ex.synth_params.volume == b[h + 14]
    &&& ex.synth_params.pitch == b[h + 15]
    &&& ex.synth_params.fine_tune == b[h + 16]
    &&& ex.input == b[h + 17]
    &&& ex.port == b[h + 18]
    &&& ex.channel == b[h + 19]
    &&& ex.bank == b[h + 20]
    &&& ex.program == b[h + 21]
    &&& cc_matches(b, h + 22, ex.cca)
    &&& cc_matches(b, h + 24, ex.ccb)
    &&& cc_matches(b, h + 26, ex.ccc)
    &&& cc_matches(b, h + 28, ex.ccd)
    &&& synth_params_matches(b, h + 30, ver, b[h + 12] >> 1, 22, ex.synth_params)
}

/// The record body at `h` decodes to an external instrument.
pub open spec fn external_inst_valid(b: Seq<u8>, h: int, ver: Version) -> bool {
    synth_params_valid(b, h + 30, 22)
}

/// This instrument can be serialized under `ver`.
pub open spec fn external_inst_wf(ex: ExternalInst, ver: Version) -> bool {
    &&& name_wf(ex.name@, 12)
    &&& synth_params_wf(ex.synth_params)
    &&& (ver.spec_at_least(4, 1) || ex.synth_params.associated_eq < 128)
}

impl ExternalInst {
    /// Parse the record body, the kind byte having been consumed.  This
    /// kind exists only from format revision 3.0.
    pub fn from_reader(reader: &mut Reader, number: u8, version: Version) -> (r: M8Result<Self>)
        requires
            version.spec_at_least(3, 0),
            old(reader).spec_pos() + 214 <= old(reader).data().len(),
        ensures
            final(reader).data() == old(reader).data(),
            r is Ok <==> external_inst_valid(old(reader).data(), old(reader).spec_pos(), version),
            r matches Ok(ex) ==> external_inst_matches(
                old(reader).data(),
                old(reader).spec_pos(),
                version,
                number,
                ex,
            ),
            r matches Ok(ex) ==> version.spec_at_least(4, 0) ==> external_inst_wf(ex, version),
    {
        let name = reader.read_string(12);
        let transp_eq = TranspEq::from_version(version, reader.read());
        let table_tick = reader.read();
        let volume = reader.read();
        let pitch = reader.read();
        let fine_tune = reader.read();
        let input = reader.read();
        let port = reader.read();
        let channel = reader.read();
        let bank = reader.read();
        let program = reader.read();
        let cca = match ControlChange::from_reader(reader) {
            Ok(c) => c,
            Err(e) => {
                return Err(e);
            },
        };
        let ccb = match ControlChange::from_reader(reader) {
            Ok(c) => c,
            Err(e) => {
                return Err(e);
            },
        };
        let ccc = match ControlChange::from_reader(reader) {
            Ok(c) => c,
            Err(e) => {
                return Err(e);
            },
        };
        let ccd = match ControlChange::from_reader(reader) {
            Ok(c) => c,
            Err(e) => {
                return Err(e);
            },
        };
        let synth_params = match SynthParams::from_reader3(
            version,
            reader,
            volume,
            pitch,
            fine_tune,
            transp_eq.eq,
            EXTERNAL_INST_MOD_OFFSET,
        ) {
            Ok(sp) => sp,
            Err(e) => {
                return Err(e);
            },
        };
        Ok(ExternalInst {
            number,
            name,
            transpose: transp_eq.transpose,
            table_tick,
            synth_params,
            input,
            port,
            channel,
            bank,
            program,
            cca,
            ccb,
            ccc,
            ccd,
        })
    }

    /// Serialize the record body, the kind byte having been written.
    pub fn write(&self, ver: Version, w: &mut Writer)
        requires
            external_inst_wf(*self, ver),
            ver.spec_at_least(4, 0),
            old(w).spec_pos() + 214 <= old(w).data().len(),
        ensures
            final(w).data().len() == old(w).data().len(),
            preserved_outside(
                old(w).data(),
                final(w).data(),
                old(w).spec_pos(),
                old(w).spec_pos() + 214,
            ),
            external_inst_matches(final(w).data(), old(w).spec_pos(), ver, self.number, *self),
            external_inst_valid(final(w).data(), old(w).spec_pos(), ver),
    {
        let ghost h = old(w).spec_pos();
        w.write_string(&self.name, 12);
        let te = TranspEq::from(ver, self.transpose, self.synth_params.associated_eq);
        w.write(te.to_byte());
        w.write(self.table_tick);
        w.write(self.synth_params.volume);
        w.write(self.synth_params.pitch);
        w.write(self.synth_params.fine_tune);
        w.write(self.input);
        w.write(self.port);
        w.write(self.channel);
        w.write(self.bank);
        w.write(self.program);
        self.cca.write(w);
        self.ccb.write(w);
        self.ccc.write(w);
        self.ccd.write(w);
        self.synth_params.write(ver, w, EXTERNAL_INST_MOD_OFFSET);
        proof {
            let b = final(w).data();
            assert forall|j: int| 0 <= j < self.name@.len() implies b[h + j] == self.name@[j] by {}
            if self.name@.len() < 12 {
                assert(b[h + self.name@.len()] == 0u8);
            }
            crate::reader::lemma_string_at_canonical(b, h, 12, self.name@);
        }
    }
}

/// A matching record still matches after writes that left its bytes alone.
pub proof fn lemma_external_inst_frame(
    b1: Seq<u8>,
    b2: Seq<u8>,
    h: int,
    ver: Version,
    number: u8,
    ex: ExternalInst,
)
    requires
        0 <= h,
        h + 214 <= b1.len(),
        b2.len() == b1.len(),
        forall|k: int| h <= k < h + 214 ==> #[trigger] b2[k] == b1[k],
        external_inst_matches(b1, h, ver, number, ex),
    ensures
        external_inst_matches(b2, h, ver, number, ex),
{
    crate::reader::lemma_string_at_frame(b1, b2, h, 12);
    assert(b2[h + 12] == b1[h + 12]);
    assert(b2[h + 13] == b1[h + 13]);
    assert(b2[h + 14] == b1[h + 14]);
    assert(b2[h + 15] == b1[h + 15]);
    assert(b2[h + 16] == b1[h + 16]);
    assert(b2[h + 17] == b1[h + 17]);
    assert(b2[h + 18] == b1[h + 18]);
    assert(b2[h + 19] == b1[h + 19]);
    assert(b2[h + 20] == b1[h + 20]);
    assert(b2[h + 21] == b1[h + 21]);
    assert(b2[h + 22] == b1[h + 22]);
    assert(b2[h + 23] == b1[h + 23]);
    assert(b2[h + 24] == b1[h + 24]);
    assert(b2[h + 25] == b1[h + 25]);
    assert(b2[h + 26] == b1[h + 26]);
    assert(b2[h + 27] == b1[h + 27]);
    assert(b2[h + 28] == b1[h + 28]);
    assert(b2[h + 29] == b1[h + 29]);
    assert forall|k: int| h + 30 <= k < h + 30 + 10 + 22 + 24 implies #[trigger] b2[k]
        == b1[k] by {
        assert(b2[k] == b1[k]);
    }
    crate::instruments::common::lemma_synth_params_frame(
        b1,
        b2,
        h + 30,
        ver,
        b1[h + 12] >> 1,
        22,
        ex.synth_params,
    );
}

} // verus!

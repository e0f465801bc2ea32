//! MIDI control-change pairs and the MIDI-out instrument kind.

use crate::instruments::common::{mods_match, mods_valid, synth_params_wf, SynthParams};
use crate::instruments::name_wf;
use crate::reader::{string_at, M8Result, Reader};
use crate::version::Version;
use crate::writer::{preserved_outside, Writer};
use vstd::prelude::*;

verus! {

broadcast use crate::reader::lemma_reader_pos_nonneg, crate::reader::lemma_reader_data_bound, crate::writer::lemma_writer_pos_nonneg, crate::writer::lemma_writer_data_bound;

/// One MIDI control-change assignment: the CC number and the value sent.
#[derive(PartialEq, Eq, Structural, Debug, Clone, Copy)]
pub struct ControlChange {
    /// CC number (target).
    pub number: u8,
    /// Value to be sent via MIDI CC message.
    pub value: u8,
}

/// The two bytes at `p` hold exactly this control change.
pub open spec fn cc_matches(b: Seq<u8>, p: int, cc: ControlChange) -> bool {
    &&& cc.number == b[p]
    &&& cc.value == b[p + 1]
}

impl ControlChange {
    /// Serialize the two bytes.
    pub fn write(self, writer: &mut Writer)
        requires
            old(writer).spec_pos() + 2 <= old(writer).data().len(),
        ensures
            final(writer).data().len() == old(writer).data().len(),
            final(writer).spec_pos() == old(writer).spec_pos() + 2,
            preserved_outside(
                old(writer).data(),
                final(writer).data(),
                old(writer).spec_pos(),
                old(writer).spec_pos() + 2,
            ),
            cc_matches(final(writer).data(), old(writer).spec_pos(), self),
    {
        writer.write(self.number);
        writer.write(self.value);
    }

    /// Parse the two bytes.
    pub fn from_reader(reader: &mut Reader) -> (r: M8Result<Self>)
        requires
            old(reader).spec_pos() + 2 <= old(reader).data().len(),
        ensures
            final(reader).data() == old(reader).data(),
            final(reader).spec_pos() == old(reader).spec_pos() + 2,
            r matches Ok(cc) && cc_matches(old(reader).data(), old(reader).spec_pos(), cc),
    {
        Ok(Self { number: reader.read(), value: reader.read() })
    }
}

/// The MIDI-out instrument: routing and ten custom control changes; of the
/// synth-parameter block only the modulators are stored.
#[derive(PartialEq, Debug, Clone)]
pub struct MIDIOut {
    pub number: u8,
    pub name: Vec<u8>,
    pub transpose: bool,
    pub table_tick: u8,
    pub port: u8,
    pub channel: u8,
    pub bank_select: u8,
    pub program_change: u8,
    pub custom_cc: Vec<ControlChange>,
    pub mods: SynthParams,
}

/// Gap between the last control change and the modulators for this kind.
pub const MIDI_OUT_MOD_OFFSET: usize = 21;

/// The record body at `h` (the byte after the kind byte) holds exactly this
/// instrument, parsed as slot `number` under `ver`.
pub open spec fn midi_out_matches(b: Seq<u8>, h: int, ver: Version, number: u8, mo: MIDIOut) -> bool {
    &&& mo.number == number
    &&& mo.name@ == string_at(b, h, 12)
    &&& mo.transpose == (b[h + 12] == 1)
    &&& mo.table_tick == b[h + 13]
    &&& mo.port == b[h + 14]
    &&& mo.channel == b[h + 15]
    &&& mo.bank_select == b[h + 16]
    &&& mo.program_change == b[h + 17]
    &&& mo.custom_cc@.len() == 10
    &&& forall|i: int| 0 <= i < 10 ==> cc_matches(b, h + 21 + 2 * i, #[trigger] mo.custom_cc@[i])
    &&& if ver.spec_at_least(3, 0) {
        mods_match(b, h + 62, mo.mods.mods@)
    } else {
        mo.mods.mods@ == Seq::new(
            4,
            |i: int| crate::instruments::modulator::Mod::AHDEnv(
                crate::instruments::modulator::AHDEnv {
                    dest: 0,
                    amount: 0,
                    attack: 0,
                    hold: 0,
                    decay: 0,
                },
            ),
        )
    }
    &&& mo.mods.volume == 0 && mo.mods.pitch == 0 && mo.mods.fine_tune == 0
    &&& mo.mods.filter_type == 0 && mo.mods.filter_cutoff == 0 && mo.mods.filter_res == 0
    &&& mo.mods.amp == 0 && mo.mods.limit.0 == 0
    &&& mo.mods.mixer_pan == 0 && mo.mods.mixer_dry == 0 && mo.mods.mixer_chorus == 0
    &&& mo.mods.mixer_delay == 0 && mo.mods.mixer_reverb == 0
    &&& mo.mods.associated_eq == 0xFF
}

/// The record body at `h` decodes to a MIDI-out instrument under `ver`.
pub open spec fn midi_out_valid(b: Seq<u8>, h: int, ver: Version) -> bool {
    ver.spec_at_least(3, 0) ==> mods_valid(b, h + 62)
}

/// This instrument can be serialized under `ver`: besides the shared
/// constraints, the placeholder fields of its parameter block (which never
/// reach the disk) hold their parse-time zeros.
pub open spec fn midi_out_wf(mo: MIDIOut, ver: Version) -> bool {
    &&& name_wf(mo.name@, 12)
    &&& mo.custom_cc@.len() == 10
    &&& synth_params_wf(mo.mods)
    &&& mo.mods.volume == 0 && mo.mods.pitch == 0 && mo.mods.fine_tune == 0
    &&& mo.mods.filter_type == 0 && mo.mods.filter_cutoff == 0 && mo.mods.filter_res == 0
    &&& mo.mods.amp == 0 && mo.mods.limit.0 == 0
    &&& mo.mods.mixer_pan == 0 && mo.mods.mixer_dry == 0 && mo.mods.mixer_chorus == 0
    &&& mo.mods.mixer_delay == 0 && mo.mods.mixer_reverb == 0
    &&& mo.mods.associated_eq == 0xFF
}

impl MIDIOut {
    /// Parse the record body, the kind byte having been consumed.
    pub fn from_reader(reader: &mut Reader, number: u8, version: Version) -> (r: M8Result<Self>)
        requires
            old(reader).spec_pos() + 214 <= old(reader).data().len(),
        ensures
            final(reader).data() == old(reader).data(),
            r is Ok <==> midi_out_valid(old(reader).data(), old(reader).spec_pos(), version),
            r matches Ok(mo) ==> midi_out_matches(
                old(reader).data(),
                old(reader).spec_pos(),
                version,
                number,
                mo,
            ) && midi_out_wf(mo, version),
    {
        let ghost h = old(reader).spec_pos();
        let name = reader.read_string(12);
        let transpose = reader.read_bool();
        let table_tick = reader.read();
        let port = reader.read();
        let channel = reader.read();
        let bank_select = reader.read();
        let program_change = reader.read();
        let _ = reader.read_bytes(3);
        let mut custom_cc: Vec<ControlChange> = Vec::new();
        let mut i: usize = 0;
        while i < 10
            invariant
                0 <= h,
                h + 214 <= reader.data().len(),
                reader.data() == old(reader).data(),
                reader.spec_pos() == h + 21 + 2 * i,
                i <= 10,
                custom_cc@.len() == i,
                forall|j: int|
                    0 <= j < i ==> cc_matches(reader.data(), h + 21 + 2 * j, #[trigger] custom_cc@[j]),
            decreases 10 - i,
        {
            let cc = match ControlChange::from_reader(reader) {
                Ok(c) => c,
                Err(e) => {
                    return Err(e);
                },
            };
            custom_cc.push(cc);
            i = i + 1;
        }
        let mods = if version.at_least(3, 0) {
            match SynthParams::mod_only3(reader, MIDI_OUT_MOD_OFFSET) {
                Ok(sp) => sp,
                Err(e) => {
                    return Err(e);
                },
            }
        } else {
            match SynthParams::mod_only2(reader) {
                Ok(sp) => sp,
                Err(e) => {
                    return Err(e);
                },
            }
        };
        Ok(MIDIOut {
            number,
            name,
            transpose,
            table_tick,
            port,
            channel,
            bank_select,
            program_change,
            custom_cc,
            mods,
        })
    }

    /// Serialize the record body, the kind byte having been written.  The
    /// three reserved bytes after the program change are skipped, not
    /// rewritten.
    #[verifier::rlimit(60)]
    pub fn write(&self, ver: Version, w: &mut Writer)
        requires
            midi_out_wf(*self, ver),
            ver.spec_at_least(4, 0),
            old(w).spec_pos() + 214 <= old(w).data().len(),
        ensures
            final(w).data().len() == old(w).data().len(),
            preserved_outside(
                old(w).data(),
                final(w).data(),
                old(w).spec_pos(),
                old(w).spec_pos() + 214,
            ),
            midi_out_matches(final(w).data(), old(w).spec_pos(), ver, self.number, *self),
            midi_out_valid(final(w).data(), old(w).spec_pos(), ver),
    {
        let ghost h = old(w).spec_pos();
        w.write_string(&self.name, 12);
        if self.transpose {
            w.write(1);
        } else {
            w.write(0);
        }
        w.write(self.table_tick);
        w.write(self.port);
        w.write(self.channel);
        w.write(self.bank_select);
        w.write(self.program_change);
        w.skip(3);
        let ghost d0 = w.data();
        let mut i: usize = 0;
        while i < 10
            invariant
                0 <= h,
                h + 214 <= w.data().len(),
                w.data().len() == d0.len(),
                w.spec_pos() == h + 21 + 2 * i,
                i <= 10,
                self.custom_cc@.len() == 10,
                forall|j: int|
                    0 <= j < i ==> cc_matches(w.data(), h + 21 + 2 * j, #[trigger] self.custom_cc@[j]),
                preserved_outside(d0, w.data(), h + 21, h + 21 + 2 * i),
            decreases 10 - i,
        {
            let ghost dprev = w.data();
            self.custom_cc[i].write(w);
            proof {
                assert forall|j: int|
                    0 <= j < i + 1 implies cc_matches(
                        w.data(),
                        h + 21 + 2 * j,
                        #[trigger] self.custom_cc@[j],
                    ) by {
                    if j < i {
                        assert(cc_matches(dprev, h + 21 + 2 * j, self.custom_cc@[j]));
                        assert(w.data()[h + 21 + 2 * j] == dprev[h + 21 + 2 * j]);
                        assert(w.data()[h + 21 + 2 * j + 1] == dprev[h + 21 + 2 * j + 1]);
                    }
                }
            }
            i = i + 1;
        }
        let ghost d1 = w.data();
        self.mods.write_modes(w, MIDI_OUT_MOD_OFFSET);
        proof {
            let b = final(w).data();
            assert forall|k: int| h <= k < h + 41 implies #[trigger] b[k] == d1[k] by {
                assert(b[k] == d1[k]);
            }
            assert forall|k: int| h <= k < h + 21 implies #[trigger] d1[k] == d0[k] by {
                assert(d1[k] == d0[k]);
            }
            assert forall|j: int| 0 <= j < self.name@.len() implies b[h + j] == self.name@[j] by {
                assert(b[h + j] == d1[h + j]);
                assert(d1[h + j] == d0[h + j]);
                assert(d0[h + j] == self.name@[j]);
            }
            if self.name@.len() < 12 {
                assert(b[h + self.name@.len()] == d0[h + self.name@.len()]);
                assert(b[h + self.name@.len()] == 0u8);
            }
            crate::reader::lemma_string_at_canonical(b, h, 12, self.name@);
            assert forall|j: int|
                0 <= j < 10 implies cc_matches(b, h + 21 + 2 * j, #[trigger] self.custom_cc@[j]) by {
                assert(cc_matches(d1, h + 21 + 2 * j, self.custom_cc@[j]));
                assert(b[h + 21 + 2 * j] == d1[h + 21 + 2 * j]);
                assert(b[h + 21 + 2 * j + 1] == d1[h + 21 + 2 * j + 1]);
            }
        }
    }
}

/// A matching record still matches after writes that left its bytes alone.
pub proof fn lemma_midi_out_frame(
    b1: Seq<u8>,
    b2: Seq<u8>,
    h: int,
    ver: Version,
    number: u8,
    mo: MIDIOut,
)
    requires
        0 <= h,
        h + 214 <= b1.len(),
        b2.len() == b1.len(),
        ver.spec_at_least(3, 0),
        forall|k: int| h <= k < h + 214 ==> #[trigger] b2[k] == b1[k],
        midi_out_matches(b1, h, ver, number, mo),
    ensures
        midi_out_matches(b2, h, ver, number, mo),
{
    crate::reader::lemma_string_at_frame(b1, b2, h, 12);
    assert(b2[h + 12] == b1[h + 12]);
    assert(b2[h + 13] == b1[h + 13]);
    assert(b2[h + 14] == b1[h + 14]);
    assert(b2[h + 15] == b1[h + 15]);
    assert(b2[h + 16] == b1[h + 16]);
    assert(b2[h + 17] == b1[h + 17]);
    assert forall|i: int| 0 <= i < 10 implies cc_matches(b2, h + 21 + 2 * i, #[trigger] mo.custom_cc@[i]) by {
        assert(cc_matches(b1, h + 21 + 2 * i, mo.custom_cc@[i]));
        assert(b2[h + 21 + 2 * i] == b1[h + 21 + 2 * i]);
        assert(b2[h + 21 + 2 * i + 1] == b1[h + 21 + 2 * i + 1]);
    }
    assert forall|k: int| h + 62 <= k < h + 62 + 24 implies #[trigger] b2[k] == b1[k] by {
        assert(b2[k] == b1[k]);
    }
    crate::instruments::common::proof_mods_frame(b1, b2, h + 62, mo.mods.mods@);
}

} // verus!

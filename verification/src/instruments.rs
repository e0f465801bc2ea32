//! Instrument kinds and their codecs: seven structurally different kinds
//! sharing a common parameter/modulator sub-format, tagged on disk by a
//! one-byte kind discriminant (`0xFF` marks an empty slot).

pub mod common;
pub mod external_inst;
pub mod fmsynth;
pub mod hypersynth;
pub mod macrosynth;
pub mod midi;
pub mod modulator;
pub mod sampler;
pub mod wavsynth;

use crate::eq::{equ_matches, Equ, EQ_SIZE};
use crate::instruments::external_inst::{external_inst_matches, external_inst_valid, external_inst_wf, ExternalInst};
use crate::instruments::fmsynth::{fm_synth_matches, fm_synth_valid, fm_synth_wf, FMSynth};
use crate::instruments::hypersynth::{hyper_synth_matches, hyper_synth_valid, hyper_synth_wf, HyperSynth};
use crate::instruments::macrosynth::{macro_synth_matches, macro_synth_valid, macro_synth_wf, MacroSynth};
use crate::instruments::midi::{midi_out_matches, midi_out_valid, midi_out_wf, MIDIOut};
use crate::instruments::sampler::{sampler_matches, sampler_valid, sampler_wf, Sampler};
use crate::instruments::wavsynth::{wav_synth_matches, wav_synth_valid, wav_synth_wf, WavSynth};
use crate::reader::{M8Result, ParseError, Reader};
use crate::version::{Version, VERSION_SIZE};
use crate::writer::{preserved_outside, Writer};
use vstd::prelude::*;

verus! {

broadcast use crate::reader::lemma_reader_pos_nonneg, crate::reader::lemma_reader_data_bound, crate::writer::lemma_writer_pos_nonneg, crate::writer::lemma_writer_data_bound;

/// Fixed on-disk stride of one instrument record.
pub const INSTRUMENT_MEMORY_SIZE: usize = 215;

/// A name field that can be serialized into a fixed-width string slot:
/// it fits the width and holds no terminator byte.
pub open spec fn name_wf(s: Seq<u8>, width: int) -> bool {
    &&& s.len() <= width
    &&& forall|j: int| 0 <= j < s.len() ==> s[j] != 0u8 && s[j] != 0xFFu8
}

/// One instrument slot: a closed variant over the seven kinds, or `Empty`
/// for an unused slot (kind byte `0xFF`).
#[derive(PartialEq, Debug, Clone)]
pub enum Instrument {
    WavSynth(WavSynth),
    MacroSynth(MacroSynth),
    Sampler(Sampler),
    MIDIOut(MIDIOut),
    FMSynth(FMSynth),
    HyperSynth(HyperSynth),
    External(ExternalInst),
    Empty,
}

impl Default for Instrument {
    /// The empty slot.
    fn default() -> (r: Self)
        ensures
            r == Instrument::Empty,
    {
        Instrument::Empty
    }
}

/// The 215-byte record at `p` holds exactly this instrument, parsed as slot
/// `number` under `ver`.  The kind byte at `p` picks the variant; an
/// instrument is the empty variant exactly when that byte is `0xFF`.
pub open spec fn instrument_matches(
    b: Seq<u8>,
    p: int,
    ver: Version,
    number: u8,
    inst: Instrument,
) -> bool {
    match inst {
        Instrument::WavSynth(ws) => b[p] == 0x00 && wav_synth_matches(b, p + 1, ver, number, ws),
        Instrument::MacroSynth(ms) => b[p] == 0x01 && macro_synth_matches(
            b,
            p + 1,
            ver,
            number,
            ms,
        ),
        Instrument::Sampler(s) => b[p] == 0x02 && sampler_matches(b, p + 1, ver, number, s),
        Instrument::MIDIOut(mo) => b[p] == 0x03 && midi_out_matches(b, p + 1, ver, number, mo),
        Instrument::FMSynth(fs) => b[p] == 0x04 && fm_synth_matches(b, p + 1, ver, number, fs),
        Instrument::HyperSynth(hs) => b[p] == 0x05 && ver.spec_at_least(3, 0)
            && hyper_synth_matches(b, p + 1, ver, number, hs),
        Instrument::External(ex) => b[p] == 0x06 && ver.spec_at_least(3, 0)
            && external_inst_matches(b, p + 1, ver, number, ex),
        Instrument::Empty => b[p] == 0xFF,
    }
}

/// The 215-byte record at `p` decodes to an instrument under `ver`: a known
/// kind byte whose kind-specific fields are all in range.
pub open spec fn instrument_valid(b: Seq<u8>, p: int, ver: Version) -> bool {
    ||| b[p] == 0x00 && wav_synth_valid(b, p + 1, ver)
    ||| b[p] == 0x01 && macro_synth_valid(b, p + 1, ver)
    ||| b[p] == 0x02 && sampler_valid(b, p + 1, ver)
    ||| b[p] == 0x03 && midi_out_valid(b, p + 1, ver)
    ||| b[p] == 0x04 && fm_synth_valid(b, p + 1, ver)
    ||| b[p] == 0x05 && ver.spec_at_least(3, 0) && hyper_synth_valid(b, p + 1, ver)
    ||| b[p] == 0x06 && ver.spec_at_least(3, 0) && external_inst_valid(b, p + 1, ver)
    ||| b[p] == 0xFF
}

/// An instrument that can be serialized under `ver`: names fit their
/// fields, modulator destinations fit their nibble, and at revision 4.0 the
/// associated EQ still fits the seven bits of the packed transpose byte.
pub open spec fn instrument_wf(inst: Instrument, ver: Version) -> bool {
    match inst {
        Instrument::WavSynth(ws) => wav_synth_wf(ws, ver),
        Instrument::MacroSynth(ms) => macro_synth_wf(ms, ver),
        Instrument::Sampler(s) => sampler_wf(s, ver),
        Instrument::MIDIOut(mo) => midi_out_wf(mo, ver),
        Instrument::FMSynth(fs) => fm_synth_wf(fs, ver),
        Instrument::HyperSynth(hs) => hyper_synth_wf(hs, ver),
        Instrument::External(ex) => external_inst_wf(ex, ver),
        Instrument::Empty => true,
    }
}

/// Result of parsing a standalone instrument file: the instrument and, for
/// format 4.1 files that carry one, the EQ stored alongside it.
pub struct InstrumentWithEq {
    /// The parsed instrument.
    pub instrument: Instrument,
    /// If the file was long enough to carry one, the EQ definition.
    pub eq: Option<Equ>,
}

/// Byte offset of the EQ record inside a standalone 4.1 instrument file.
pub const INSTRUMENT_FILE_EQ_OFFSET: usize = 0x165;

impl Instrument {
    /// An instrument slot is empty exactly when it holds the `Empty`
    /// variant.
    pub fn is_empty(&self) -> (r: bool)
        ensures
            r == (*self is Empty),
    {
        match self {
            Instrument::Empty => true,
            _ => false,
        }
    }

    /// The instrument's name, for the kinds that carry one.
    pub fn name(&self) -> (r: Option<&Vec<u8>>)
        ensures
            match *self {
                Instrument::WavSynth(ws) => r matches Some(n) && n@ == ws.name@,
                Instrument::MacroSynth(ms) => r matches Some(n) && n@ == ms.name@,
                Instrument::Sampler(s) => r matches Some(n) && n@ == s.name@,
                Instrument::MIDIOut(_) => r is None,
                Instrument::FMSynth(fs) => r matches Some(n) && n@ == fs.name@,
                Instrument::HyperSynth(hs) => r matches Some(n) && n@ == hs.name@,
                Instrument::External(ex) => r matches Some(n) && n@ == ex.name@,
                Instrument::Empty => r is None,
            },
    {
        match self {
            Instrument::WavSynth(ws) => Some(&ws.name),
            Instrument::MacroSynth(ms) => Some(&ms.name),
            Instrument::Sampler(s) => Some(&s.name),
            Instrument::MIDIOut(_) => None,
            Instrument::FMSynth(fs) => Some(&fs.name),
            Instrument::HyperSynth(hs) => Some(&hs.name),
            Instrument::External(ex) => Some(&ex.name),
            Instrument::Empty => None,
        }
    }

    /// Rename the instrument, for the kinds that carry a name.
    pub fn set_name(&mut self, name: Vec<u8>)
        ensures
            match *old(self) {
                Instrument::WavSynth(ws) => *final(self) == Instrument::WavSynth(
                    WavSynth { name: name, ..ws },
                ),
                Instrument::MacroSynth(ms) => *final(self) == Instrument::MacroSynth(
                    MacroSynth { name: name, ..ms },
                ),
                Instrument::Sampler(s) => *final(self) == Instrument::Sampler(
                    Sampler { name: name, ..s },
                ),
                Instrument::MIDIOut(mo) => *final(self) == Instrument::MIDIOut(
                    MIDIOut { name: name, ..mo },
                ),
                Instrument::FMSynth(fs) => *final(self) == Instrument::FMSynth(
                    FMSynth { name: name, ..fs },
                ),
                Instrument::HyperSynth(hs) => *final(self) == Instrument::HyperSynth(
                    HyperSynth { name: name, ..hs },
                ),
                Instrument::External(ex) => *final(self) == Instrument::External(
                    ExternalInst { name: name, ..ex },
                ),
                Instrument::Empty => *final(self) == Instrument::Empty,
            },
    {
        match self {
            Instrument::WavSynth(ws) => ws.name = name,
            Instrument::MacroSynth(ms) => ms.name = name,
            Instrument::Sampler(s) => s.name = name,
            Instrument::MIDIOut(mo) => mo.name = name,
            Instrument::FMSynth(fs) => fs.name = name,
            Instrument::HyperSynth(hs) => hs.name = name,
            Instrument::External(ex) => ex.name = name,
            Instrument::Empty => {},
        }
    }

    /// The associated EQ slot, for the kinds that own a synth-parameter
    /// block.
    pub open spec fn spec_equ(&self) -> Option<u8> {
        match *self {
            Instrument::WavSynth(ws) => Some(ws.synth_params.associated_eq),
            Instrument::MacroSynth(ms) => Some(ms.synth_params.associated_eq),
            Instrument::Sampler(s) => Some(s.synth_params.associated_eq),
            Instrument::MIDIOut(_) => None,
            Instrument::FMSynth(fs) => Some(fs.synth_params.associated_eq),
            Instrument::HyperSynth(hs) => Some(hs.synth_params.associated_eq),
            Instrument::External(ex) => Some(ex.synth_params.associated_eq),
            Instrument::Empty => None,
        }
    }

    /// The associated EQ slot, for the kinds that own a synth-parameter
    /// block.
    #[verifier::when_used_as_spec(spec_equ)]
    pub fn equ(&self) -> (r: Option<u8>)
        ensures
            r == self.spec_equ(),
    {
        match self {
            Instrument::WavSynth(ws) => Some(ws.synth_params.associated_eq),
            Instrument::MacroSynth(ms) => Some(ms.synth_params.associated_eq),
            Instrument::Sampler(s) => Some(s.synth_params.associated_eq),
            Instrument::MIDIOut(_) => None,
            Instrument::FMSynth(fs) => Some(fs.synth_params.associated_eq),
            Instrument::HyperSynth(hs) => Some(hs.synth_params.associated_eq),
            Instrument::External(ex) => Some(ex.synth_params.associated_eq),
            Instrument::Empty => None,
        }
    }

    /// The instrument after re-attaching it to EQ slot `eq_ix`, leaving the
    /// kinds without a synth-parameter block alone.
    pub open spec fn spec_set_eq(self, eq_ix: u8) -> Instrument {
        match self {
            Instrument::WavSynth(ws) => Instrument::WavSynth(
                WavSynth {
                    synth_params: crate::instruments::common::SynthParams {
                        associated_eq: eq_ix,
                        ..ws.synth_params
                    },
                    ..ws
                },
            ),
            Instrument::MacroSynth(ms) => Instrument::MacroSynth(
                MacroSynth {
                    synth_params: crate::instruments::common::SynthParams {
                        associated_eq: eq_ix,
                        ..ms.synth_params
                    },
                    ..ms
                },
            ),
            Instrument::Sampler(s) => Instrument::Sampler(
                Sampler {
                    synth_params: crate::instruments::common::SynthParams {
                        associated_eq: eq_ix,
                        ..s.synth_params
                    },
                    ..s
                },
            ),
            Instrument::MIDIOut(mo) => Instrument::MIDIOut(mo),
            Instrument::FMSynth(fs) => Instrument::FMSynth(
                FMSynth {
                    synth_params: crate::instruments::common::SynthParams {
                        associated_eq: eq_ix,
                        ..fs.synth_params
                    },
                    ..fs
                },
            ),
            Instrument::HyperSynth(hs) => Instrument::HyperSynth(
                HyperSynth {
                    synth_params: crate::instruments::common::SynthParams {
                        associated_eq: eq_ix,
                        ..hs.synth_params
                    },
                    ..hs
                },
            ),
            Instrument::External(ex) => Instrument::External(
                ExternalInst {
                    synth_params: crate::instruments::common::SynthParams {
                        associated_eq: eq_ix,
                        ..ex.synth_params
                    },
                    ..ex
                },
            ),
            Instrument::Empty => Instrument::Empty,
        }
    }

    /// Re-attach the instrument to EQ slot `eq_ix`.
    pub fn set_eq(&mut self, eq_ix: u8)
        ensures
            *final(self) == old(self).spec_set_eq(eq_ix),
    {
        match self {
            Instrument::WavSynth(ws) => ws.synth_params.set_eq(eq_ix),
            Instrument::MacroSynth(ms) => ms.synth_params.set_eq(eq_ix),
            Instrument::Sampler(s) => s.synth_params.set_eq(eq_ix),
            Instrument::MIDIOut(_) => {},
            Instrument::FMSynth(fs) => fs.synth_params.set_eq(eq_ix),
            Instrument::HyperSynth(hs) => hs.synth_params.set_eq(eq_ix),
            Instrument::External(ex) => ex.synth_params.set_eq(eq_ix),
            Instrument::Empty => {},
        }
    }

    /// Parse one instrument record.  The cursor is forced to exactly 215
    /// bytes past the record start whatever the kind consumed; an unknown
    /// kind byte, or a kind newer than the file's format revision, is a
    /// parse failure.
    pub fn from_reader(reader: &mut Reader, number: u8, version: Version) -> (r: M8Result<
        Instrument,
    >)
        requires
            old(reader).spec_pos() + 215 <= old(reader).data().len(),
        ensures
            final(reader).data() == old(reader).data(),
            r is Ok ==> final(reader).spec_pos() == old(reader).spec_pos() + 215,
            r is Ok <==> instrument_valid(old(reader).data(), old(reader).spec_pos(), version),
            r matches Ok(inst) ==> instrument_matches(
                old(reader).data(),
                old(reader).spec_pos(),
                version,
                number,
                inst,
            ),
            r matches Ok(inst) ==> version.spec_at_least(4, 0) ==> instrument_wf(inst, version),
    {
        let start_pos = reader.pos();
        let kind = reader.read();
        let instr = match kind {
            0x00u8 => Instrument::WavSynth(
                match WavSynth::from_reader(reader, number, version) {
                    Ok(i) => i,
                    Err(e) => {
                        return Err(e);
                    },
                },
            ),
            0x01u8 => Instrument::MacroSynth(
                match MacroSynth::from_reader(reader, number, version) {
                    Ok(i) => i,
                    Err(e) => {
                        return Err(e);
                    },
                },
            ),
            0x02u8 => Instrument::Sampler(
                match Sampler::from_reader(reader, start_pos, number, version) {
                    Ok(i) => i,
                    Err(e) => {
                        return Err(e);
                    },
                },
            ),
            0x03u8 => Instrument::MIDIOut(
                match MIDIOut::from_reader(reader, number, version) {
                    Ok(i) => i,
                    Err(e) => {
                        return Err(e);
                    },
                },
            ),
            0x04u8 => Instrument::FMSynth(
                match FMSynth::from_reader(reader, number, version) {
                    Ok(i) => i,
                    Err(e) => {
                        return Err(e);
                    },
                },
            ),
            0x05u8 => {
                if version.at_least(3, 0) {
                    Instrument::HyperSynth(
                        match HyperSynth::from_reader(reader, number, version) {
                            Ok(i) => i,
                            Err(e) => {
                                return Err(e);
                            },
                        },
                    )
                } else {
                    return Err(ParseError("Instrument type not supported".to_string()));
                }
            },
            0x06u8 => {
                if version.at_least(3, 0) {
                    Instrument::External(
                        match ExternalInst::from_reader(reader, number, version) {
                            Ok(i) => i,
                            Err(e) => {
                                return Err(e);
                            },
                        },
                    )
                } else {
                    return Err(ParseError("Instrument type not supported".to_string()));
                }
            },
            0xFFu8 => Instrument::Empty,
            _ => {
                return Err(ParseError("Instrument type not supported".to_string()));
            },
        };
        reader.set_pos(start_pos + 215);
        Ok(instr)
    }

    /// Serialize one instrument record: the kind byte, then the
    /// kind-specific fields.  The cursor is left wherever the kind's last
    /// write put it; the container seeks to the next 215-byte slot.
    pub fn write(&self, ver: Version, w: &mut Writer)
        requires
            instrument_wf(*self, ver),
            ver.spec_at_least(4, 0),
            old(w).spec_pos() + 215 <= old(w).data().len(),
        ensures
            final(w).data().len() == old(w).data().len(),
            preserved_outside(
                old(w).data(),
                final(w).data(),
                old(w).spec_pos(),
                old(w).spec_pos() + 215,
            ),
            instrument_matches(final(w).data(), old(w).spec_pos(), ver, self.spec_number(), *self),
            instrument_valid(final(w).data(), old(w).spec_pos(), ver),
            *self is Empty ==> final(w).spec_pos() == old(w).spec_pos() + 1
                && crate::writer::preserved_outside(
                old(w).data(),
                final(w).data(),
                old(w).spec_pos(),
                old(w).spec_pos() + 1,
            ),
    {
        match self {
            Instrument::WavSynth(ws) => {
                w.write(0);
                ws.write(ver, w);
            },
            Instrument::MacroSynth(ms) => {
                w.write(1);
                ms.write(ver, w);
            },
            Instrument::Sampler(s) => {
                w.write(2);
                s.write(ver, w);
            },
            Instrument::MIDIOut(mo) => {
                w.write(3);
                mo.write(ver, w);
            },
            Instrument::FMSynth(fs) => {
                w.write(4);
                fs.write(ver, w);
            },
            Instrument::HyperSynth(hs) => {
                w.write(5);
                hs.write(ver, w);
            },
            Instrument::External(ex) => {
                w.write(6);
                ex.write(ver, w);
            },
            Instrument::Empty => w.write(0xFF),
        }
    }

    /// The slot number the instrument was parsed from.
    pub open spec fn spec_number(&self) -> u8 {
        match *self {
            Instrument::WavSynth(ws) => ws.number,
            Instrument::MacroSynth(ms) => ms.number,
            Instrument::Sampler(s) => s.number,
            Instrument::MIDIOut(mo) => mo.number,
            Instrument::FMSynth(fs) => fs.number,
            Instrument::HyperSynth(hs) => hs.number,
            Instrument::External(ex) => ex.number,
            Instrument::Empty => 0,
        }
    }

    /// Parse an in-memory instrument file: a version block, the instrument
    /// record, and, for 4.0+ files long enough to carry one, the EQ stored
    /// alongside.
    pub fn read_from_reader(reader: &mut Reader) -> (r: M8Result<InstrumentWithEq>)
        requires
            old(reader).spec_pos() == 0,
        ensures
            final(reader).data() == old(reader).data(),
            r is Ok <==> old(reader).data().len() >= 215 + 14 && instrument_valid(
                old(reader).data(),
                14,
                crate::version::version_at(old(reader).data(), 0),
            ),
            r matches Ok(iweq) ==> instrument_matches(
                old(reader).data(),
                14,
                crate::version::version_at(old(reader).data(), 0),
                0,
                iweq.instrument,
            ),
            r matches Ok(iweq) ==> (iweq.eq is Some <==> crate::version::version_at(
                old(reader).data(),
                0,
            ).spec_at_least(4, 0) && old(reader).data().len() >= 0x165 + 18),
            r matches Ok(iweq) ==> iweq.eq matches Some(e) ==> crate::eq::equ_matches(
                old(reader).data(),
                0x165,
                e,
            ),
    {
        let total = reader.len();
        if total < INSTRUMENT_MEMORY_SIZE + VERSION_SIZE {
            return Err(ParseError("File is not long enough to be a M8 Instrument".to_string()));
        }
        let version = match Version::from_reader(reader) {
            Ok(v) => v,
            Err(e) => {
                return Err(e);
            },
        };
        let instrument = match Self::from_reader(reader, 0, version) {
            Ok(i) => i,
            Err(e) => {
                return Err(e);
            },
        };
        let eq = if version.at_least(4, 0) {
            if total >= INSTRUMENT_FILE_EQ_OFFSET + EQ_SIZE {
                reader.set_pos(INSTRUMENT_FILE_EQ_OFFSET);
                Some(Equ::from_reader(reader))
            } else {
                None
            }
        } else {
            None
        };
        Ok(InstrumentWithEq { instrument, eq })
    }
}

/// Structural equality of two synth-parameter blocks: every field equal,
/// modulators included.
pub open spec fn synth_params_equiv(a: crate::instruments::common::SynthParams, b: crate::instruments::common::SynthParams) -> bool {
    &&& a.volume == b.volume
    &&& a.pitch == b.pitch
    &&& a.fine_tune == b.fine_tune
    &&& a.filter_type == b.filter_type
    &&& a.filter_cutoff == b.filter_cutoff
    &&& a.filter_res == b.filter_res
    &&& a.amp == b.amp
    &&& a.limit == b.limit
    &&& a.mixer_pan == b.mixer_pan
    &&& a.mixer_dry == b.mixer_dry
    &&& a.mixer_chorus == b.mixer_chorus
    &&& a.mixer_delay == b.mixer_delay
    &&& a.mixer_reverb == b.mixer_reverb
    &&& a.associated_eq == b.associated_eq
    &&& a.mods@ == b.mods@
}

/// Structural equality of two instruments: same variant, every field
/// (recursively) equal.  This is the notion the remapping engine
/// deduplicates by.
pub open spec fn inst_equiv(a: Instrument, b: Instrument) -> bool {
    match (a, b) {
        (Instrument::WavSynth(x), Instrument::WavSynth(y)) => {
            &&& x.number == y.number
            &&& x.name@ == y.name@
            &&& x.transpose == y.transpose
            &&& x.table_tick == y.table_tick
            &&& synth_params_equiv(x.synth_params, y.synth_params)
            &&& x.shape == y.shape
            &&& x.size == y.size
            &&& x.mult == y.mult
            &&& x.warp == y.warp
            &&& x.scan == y.scan
        },
        (Instrument::MacroSynth(x), Instrument::MacroSynth(y)) => {
            &&& x.number == y.number
            &&& x.name@ == y.name@
            &&& x.transpose == y.transpose
            &&& x.table_tick == y.table_tick
            &&& synth_params_equiv(x.synth_params, y.synth_params)
            &&& x.shape == y.shape
            &&& x.timbre == y.timbre
            &&& x.color == y.color
            &&& x.degrade == y.degrade
            &&& x.redux == y.redux
        },
        (Instrument::Sampler(x), Instrument::Sampler(y)) => {
            &&& x.number == y.number
            &&& x.name@ == y.name@
            &&& x.transpose == y.transpose
            &&& x.table_tick == y.table_tick
            &&& synth_params_equiv(x.synth_params, y.synth_params)
            &&& x.sample_path@ == y.sample_path@
            &&& x.play_mode == y.play_mode
            &&& x.slice == y.slice
            &&& x.start == y.start
            &&& x.loop_start == y.loop_start
            &&& x.length == y.length
            &&& x.degrade == y.degrade
        },
        (Instrument::MIDIOut(x), Instrument::MIDIOut(y)) => {
            &&& x.number == y.number
            &&& x.name@ == y.name@
            &&& x.transpose == y.transpose
            &&& x.table_tick == y.table_tick
            &&& x.port == y.port
            &&& x.channel == y.channel
            &&& x.bank_select == y.bank_select
            &&& x.program_change == y.program_change
            &&& x.custom_cc@ == y.custom_cc@
            &&& synth_params_equiv(x.mods, y.mods)
        },
        (Instrument::FMSynth(x), Instrument::FMSynth(y)) => {
            &&& x.number == y.number
            &&& x.name@ == y.name@
            &&& x.transpose == y.transpose
            &&& x.table_tick == y.table_tick
            &&& synth_params_equiv(x.synth_params, y.synth_params)
            &&& x.algo == y.algo
            &&& x.operators@ == y.operators@
            &&& x.mod1 == y.mod1
            &&& x.mod2 == y.mod2
            &&& x.mod3 == y.mod3
            &&& x.mod4 == y.mod4
        },
        (Instrument::HyperSynth(x), Instrument::HyperSynth(y)) => {
            &&& x.number == y.number
            &&& x.name@ == y.name@
            &&& x.transpose == y.transpose
            &&& x.table_tick == y.table_tick
            &&& synth_params_equiv(x.synth_params, y.synth_params)
            &&& x.scale == y.scale
            &&& x.default_chord@ == y.default_chord@
            &&& x.shift == y.shift
            &&& x.swarm == y.swarm
            &&& x.width == y.width
            &&& x.subosc == y.subosc
            &&& x.chords@.len() == y.chords@.len()
            &&& forall|i: int|
                0 <= i < x.chords@.len() ==> (#[trigger] x.chords@[i])@ == y.chords@[i]@
        },
        (Instrument::External(x), Instrument::External(y)) => {
            &&& x.number == y.number
            &&& x.name@ == y.name@
            &&& x.transpose == y.transpose
            &&& x.table_tick == y.table_tick
            &&& synth_params_equiv(x.synth_params, y.synth_params)
            &&& x.input == y.input
            &&& x.port == y.port
            &&& x.channel == y.channel
            &&& x.bank == y.bank
            &&& x.program == y.program
            &&& x.cca == y.cca
            &&& x.ccb == y.ccb
            &&& x.ccc == y.ccc
            &&& x.ccd == y.ccd
        },
        (Instrument::Empty, Instrument::Empty) => true,
        _ => false,
    }
}

/// Compare two byte vectors.
fn bytes_eq(a: &Vec<u8>, b: &Vec<u8>) -> (r: bool)
    ensures
        r == (a@ == b@),
{
    let na = a.len();
    if na != b.len() {
        proof {
            assert(a@ != b@);
        }
        return false;
    }
    let mut i: usize = 0;
    while i < na
        invariant
            na == a@.len(),
            na == b@.len(),
            i <= na,
            forall|j: int| 0 <= j < i ==> a@[j] == b@[j],
        decreases na - i,
    {
        if a[i] != b[i] {
            proof {
                assert(a@[i as int] != b@[i as int]);
            }
            return false;
        }
        i = i + 1;
    }
    proof {
        assert(a@ =~= b@);
    }
    true
}

/// Compare two synth-parameter blocks structurally.
fn synth_params_eq(a: &crate::instruments::common::SynthParams, b: &crate::instruments::common::SynthParams) -> (r: bool)
    ensures
        r == synth_params_equiv(*a, *b),
{
    let scalars = a.volume == b.volume && a.pitch == b.pitch && a.fine_tune == b.fine_tune
        && a.filter_type == b.filter_type && a.filter_cutoff == b.filter_cutoff && a.filter_res
        == b.filter_res && a.amp == b.amp && a.limit == b.limit && a.mixer_pan == b.mixer_pan
        && a.mixer_dry == b.mixer_dry && a.mixer_chorus == b.mixer_chorus && a.mixer_delay
        == b.mixer_delay && a.mixer_reverb == b.mixer_reverb && a.associated_eq == b.associated_eq;
    if !scalars {
        return false;
    }
    let na = a.mods.len();
    if na != b.mods.len() {
        proof {
            assert(a.mods@ != b.mods@);
        }
        return false;
    }
    let mut i: usize = 0;
    while i < na
        invariant
            na == a.mods@.len(),
            na == b.mods@.len(),
            i <= na,
            forall|j: int| 0 <= j < i ==> a.mods@[j] == b.mods@[j],
        decreases na - i,
    {
        if !(a.mods[i] == b.mods[i]) {
            proof {
                assert(a.mods@[i as int] != b.mods@[i as int]);
            }
            return false;
        }
        i = i + 1;
    }
    proof {
        assert(a.mods@ =~= b.mods@);
    }
    true
}

/// Compare two control-change vectors structurally.
fn ccs_eq(a: &Vec<crate::instruments::midi::ControlChange>, b: &Vec<crate::instruments::midi::ControlChange>) -> (r: bool)
    ensures
        r == (a@ == b@),
{
    let na = a.len();
    if na != b.len() {
        proof {
            assert(a@ != b@);
        }
        return false;
    }
    let mut i: usize = 0;
    while i < na
        invariant
            na == a@.len(),
            na == b@.len(),
            i <= na,
            forall|j: int| 0 <= j < i ==> a@[j] == b@[j],
        decreases na - i,
    {
        if !(a[i] == b[i]) {
            proof {
                assert(a@[i as int] != b@[i as int]);
            }
            return false;
        }
        i = i + 1;
    }
    proof {
        assert(a@ =~= b@);
    }
    true
}

/// Compare two operator vectors structurally.
fn operators_eq(a: &Vec<crate::instruments::fmsynth::Operator>, b: &Vec<crate::instruments::fmsynth::Operator>) -> (r: bool)
    ensures
        r == (a@ == b@),
{
    let na = a.len();
    if na != b.len() {
        proof {
            assert(a@ != b@);
        }
        return false;
    }
    let mut i: usize = 0;
    while i < na
        invariant
            na == a@.len(),
            na == b@.len(),
            i <= na,
            forall|j: int| 0 <= j < i ==> a@[j] == b@[j],
        decreases na - i,
    {
        if !(a[i] == b[i]) {
            proof {
                assert(a@[i as int] != b@[i as int]);
            }
            return false;
        }
        i = i + 1;
    }
    proof {
        assert(a@ =~= b@);
    }
    true
}

/// Compare two chord tables structurally.
fn chords_eq(a: &Vec<Vec<u8>>, b: &Vec<Vec<u8>>) -> (r: bool)
    ensures
        r == (a@.len() == b@.len() && forall|i: int|
            0 <= i < a@.len() ==> (#[trigger] a@[i])@ == b@[i]@),
{
    let na = a.len();
    if na != b.len() {
        return false;
    }
    let mut i: usize = 0;
    while i < na
        invariant
            na == a@.len(),
            na == b@.len(),
            i <= na,
            forall|j: int| 0 <= j < i ==> (#[trigger] a@[j])@ == b@[j]@,
        decreases na - i,
    {
        if !bytes_eq(&a[i], &b[i]) {
            return false;
        }
        i = i + 1;
    }
    true
}

/// Structural equality of two instruments, the dedup test of the
/// remapping engine.
pub fn instrument_eq(a: &Instrument, b: &Instrument) -> (r: bool)
    ensures
        r == inst_equiv(*a, *b),
{
    match (a, b) {
        (Instrument::WavSynth(x), Instrument::WavSynth(y)) => x.number == y.number && bytes_eq(
            &x.name,
            &y.name,
        ) && x.transpose == y.transpose && x.table_tick == y.table_tick && synth_params_eq(
            &x.synth_params,
            &y.synth_params,
        ) && x.shape == y.shape && x.size == y.size && x.mult == y.mult && x.warp == y.warp
            && x.scan == y.scan,
        (Instrument::MacroSynth(x), Instrument::MacroSynth(y)) => x.number == y.number && bytes_eq(
            &x.name,
            &y.name,
        ) && x.transpose == y.transpose && x.table_tick == y.table_tick && synth_params_eq(
            &x.synth_params,
            &y.synth_params,
        ) && x.shape == y.shape && x.timbre == y.timbre && x.color == y.color && x.degrade
            == y.degrade && x.redux == y.redux,
        (Instrument::Sampler(x), Instrument::Sampler(y)) => x.number == y.number && bytes_eq(
            &x.name,
            &y.name,
        ) && x.transpose == y.transpose && x.table_tick == y.table_tick && synth_params_eq(
            &x.synth_params,
            &y.synth_params,
        ) && bytes_eq(&x.sample_path, &y.sample_path) && x.play_mode == y.play_mode && x.slice
            == y.slice && x.start == y.start && x.loop_start == y.loop_start && x.length
            == y.length && x.degrade == y.degrade,
        (Instrument::MIDIOut(x), Instrument::MIDIOut(y)) => x.number == y.number && bytes_eq(
            &x.name,
            &y.name,
        ) && x.transpose == y.transpose && x.table_tick == y.table_tick && x.port == y.port
            && x.channel == y.channel && x.bank_select == y.bank_select && x.program_change
            == y.program_change && ccs_eq(&x.custom_cc, &y.custom_cc) && synth_params_eq(
            &x.mods,
            &y.mods,
        ),
        (Instrument::FMSynth(x), Instrument::FMSynth(y)) => x.number == y.number && bytes_eq(
            &x.name,
            &y.name,
        ) && x.transpose == y.transpose && x.table_tick == y.table_tick && synth_params_eq(
            &x.synth_params,
            &y.synth_params,
        ) && x.algo == y.algo && operators_eq(&x.operators, &y.operators) && x.mod1 == y.mod1
            && x.mod2 == y.mod2 && x.mod3 == y.mod3 && x.mod4 == y.mod4,
        (Instrument::HyperSynth(x), Instrument::HyperSynth(y)) => x.number == y.number && bytes_eq(
            &x.name,
            &y.name,
        ) && x.transpose == y.transpose && x.table_tick == y.table_tick && synth_params_eq(
            &x.synth_params,
            &y.synth_params,
        ) && x.scale == y.scale && bytes_eq(&x.default_chord, &y.default_chord) && x.shift
            == y.shift && x.swarm == y.swarm && x.width == y.width && x.subosc == y.subosc
            && chords_eq(&x.chords, &y.chords),
        (Instrument::External(x), Instrument::External(y)) => x.number == y.number && bytes_eq(
            &x.name,
            &y.name,
        ) && x.transpose == y.transpose && x.table_tick == y.table_tick && synth_params_eq(
            &x.synth_params,
            &y.synth_params,
        ) && x.input == y.input && x.port == y.port && x.channel == y.channel && x.bank == y.bank
            && x.program == y.program && x.cca == y.cca && x.ccb == y.ccb && x.ccc == y.ccc
            && x.ccd == y.ccd,
        (Instrument::Empty, Instrument::Empty) => true,
        _ => false,
    }
}

/// The record predicate pins every field: two instruments matching the
/// same 215 bytes under the same revision and slot are structurally equal.
pub proof fn lemma_instrument_matches_unique(
    b: Seq<u8>,
    p: int,
    ver: Version,
    number: u8,
    i1: Instrument,
    i2: Instrument,
)
    requires
        instrument_matches(b, p, ver, number, i1),
        instrument_matches(b, p, ver, number, i2),
    ensures
        inst_equiv(i1, i2),
{
    let h = p + 1;
    match (i1, i2) {
        (Instrument::WavSynth(x), Instrument::WavSynth(y)) => {
            if ver.spec_at_least(3, 0) {
                crate::instruments::common::lemma_synth_params_matches_unique(
                    b,
                    h + 22,
                    ver,
                    b[h + 12] >> 1,
                    30,
                    x.synth_params,
                    y.synth_params,
                );
            } else {
                crate::instruments::common::lemma_synth_params2_matches_unique(
                    b,
                    h + 22,
                    x.synth_params,
                    y.synth_params,
                );
            }
        },
        (Instrument::MacroSynth(x), Instrument::MacroSynth(y)) => {
            if ver.spec_at_least(3, 0) {
                crate::instruments::common::lemma_synth_params_matches_unique(
                    b,
                    h + 22,
                    ver,
                    b[h + 12] >> 1,
                    30,
                    x.synth_params,
                    y.synth_params,
                );
            } else {
                crate::instruments::common::lemma_synth_params2_matches_unique(
                    b,
                    h + 22,
                    x.synth_params,
                    y.synth_params,
                );
            }
        },
        (Instrument::Sampler(x), Instrument::Sampler(y)) => {
            if ver.spec_at_least(3, 0) {
                crate::instruments::common::lemma_synth_params_matches_unique(
                    b,
                    h + 23,
                    ver,
                    b[h + 12] >> 1,
                    29,
                    x.synth_params,
                    y.synth_params,
                );
            } else {
                crate::instruments::common::lemma_synth_params2_matches_unique(
                    b,
                    h + 23,
                    x.synth_params,
                    y.synth_params,
                );
            }
        },
        (Instrument::MIDIOut(x), Instrument::MIDIOut(y)) => {
            assert forall|i: int| 0 <= i < 10 implies #[trigger] x.custom_cc@[i]
                == y.custom_cc@[i] by {
                assert(crate::instruments::midi::cc_matches(b, h + 21 + 2 * i, x.custom_cc@[i]));
                assert(crate::instruments::midi::cc_matches(b, h + 21 + 2 * i, y.custom_cc@[i]));
            }
            assert(x.custom_cc@ =~= y.custom_cc@);
            if ver.spec_at_least(3, 0) {
                assert forall|i: int| 0 <= i < 4 implies #[trigger] x.mods.mods@[i]
                    == y.mods.mods@[i] by {
                    crate::instruments::modulator::lemma_mod_matches_unique(
                        b,
                        h + 62 + 6 * i,
                        x.mods.mods@[i],
                        y.mods.mods@[i],
                    );
                }
            }
            assert(x.mods.mods@ =~= y.mods.mods@);
        },
        (Instrument::FMSynth(x), Instrument::FMSynth(y)) => {
            assert forall|i: int| 0 <= i < 4 implies #[trigger] x.operators@[i]
                == y.operators@[i] by {}
            assert(x.operators@ =~= y.operators@);
            if ver.spec_at_least(3, 0) {
                crate::instruments::common::lemma_synth_params_matches_unique(
                    b,
                    h + 50,
                    ver,
                    b[h + 12] >> 1,
                    2,
                    x.synth_params,
                    y.synth_params,
                );
            } else if ver.spec_at_least(1, 4) {
                crate::instruments::common::lemma_synth_params2_matches_unique(
                    b,
                    h + 50,
                    x.synth_params,
                    y.synth_params,
                );
            } else {
                crate::instruments::common::lemma_synth_params2_matches_unique(
                    b,
                    h + 46,
                    x.synth_params,
                    y.synth_params,
                );
            }
        },
        (Instrument::HyperSynth(x), Instrument::HyperSynth(y)) => {
            crate::instruments::common::lemma_synth_params_matches_unique(
                b,
                h + 29,
                ver,
                b[h + 12] >> 1,
                23,
                x.synth_params,
                y.synth_params,
            );
            assert(x.default_chord@ =~= y.default_chord@);
            assert forall|i: int| 0 <= i < 16 implies (#[trigger] x.chords@[i])@
                == y.chords@[i]@ by {
                assert(crate::instruments::hypersynth::chord_matches(
                    b,
                    h + 86 + 7 * i,
                    x.chords@[i]@,
                ));
                assert(crate::instruments::hypersynth::chord_matches(
                    b,
                    h + 86 + 7 * i,
                    y.chords@[i]@,
                ));
                assert(x.chords@[i]@ =~= y.chords@[i]@);
            }
        },
        (Instrument::External(x), Instrument::External(y)) => {
            crate::instruments::common::lemma_synth_params_matches_unique(
                b,
                h + 30,
                ver,
                b[h + 12] >> 1,
                22,
                x.synth_params,
                y.synth_params,
            );
        },
        (Instrument::Empty, Instrument::Empty) => {},
        _ => {
            assert(false);
        },
    }
}

/// Sentinel law: an instrument parsed from a record is the empty variant
/// exactly when the record's kind byte is `0xFF`.
pub proof fn lemma_instrument_empty_sentinel(
    b: Seq<u8>,
    p: int,
    ver: Version,
    number: u8,
    inst: Instrument,
)
    requires
        instrument_matches(b, p, ver, number, inst),
    ensures
        inst is Empty <==> b[p] == 0xFF,
{
}

/// A matching, well-formed instrument certifies that its record bytes are
/// decodable.
pub proof fn lemma_instrument_matches_valid(
    b: Seq<u8>,
    p: int,
    ver: Version,
    number: u8,
    inst: Instrument,
)
    requires
        instrument_matches(b, p, ver, number, inst),
        instrument_wf(inst, ver),
        ver.spec_at_least(4, 0),
    ensures
        instrument_valid(b, p, ver),
{
    let h = p + 1;
    match inst {
        Instrument::WavSynth(ws) => {
            crate::instruments::common::lemma_synth_params_matches_valid(
                b,
                h + 22,
                ver,
                b[h + 12] >> 1,
                30,
                ws.synth_params,
            );
        },
        Instrument::MacroSynth(ms) => {
            crate::instruments::common::lemma_synth_params_matches_valid(
                b,
                h + 22,
                ver,
                b[h + 12] >> 1,
                30,
                ms.synth_params,
            );
        },
        Instrument::Sampler(s) => {
            crate::instruments::common::lemma_synth_params_matches_valid(
                b,
                h + 23,
                ver,
                b[h + 12] >> 1,
                29,
                s.synth_params,
            );
        },
        Instrument::MIDIOut(mo) => {
            assert forall|i: int| 0 <= i < 4 implies #[trigger] crate::instruments::modulator::mod_valid(
                b,
                h + 62 + 6 * i,
            ) by {
                assert(crate::instruments::modulator::mod_matches(
                    b,
                    h + 62 + 6 * i,
                    mo.mods.mods@[i],
                ));
                assert(crate::instruments::modulator::mod_wf(mo.mods.mods@[i]));
            }
        },
        Instrument::FMSynth(fs) => {
            assert forall|i: int|
                0 <= i < 4 implies crate::instruments::fmsynth::FMWave::spec_from_code(
                #[trigger] b[h + 18 + i],
            ) is Some by {
                assert(crate::instruments::fmsynth::FMWave::spec_from_code(b[h + 18 + i]) == Some(
                    fs.operators@[i].shape,
                ));
            }
            crate::instruments::common::lemma_synth_params_matches_valid(
                b,
                h + 50,
                ver,
                b[h + 12] >> 1,
                2,
                fs.synth_params,
            );
        },
        Instrument::HyperSynth(hs) => {
            crate::instruments::common::lemma_synth_params_matches_valid(
                b,
                h + 29,
                ver,
                b[h + 12] >> 1,
                23,
                hs.synth_params,
            );
        },
        Instrument::External(ex) => {
            crate::instruments::common::lemma_synth_params_matches_valid(
                b,
                h + 30,
                ver,
                b[h + 12] >> 1,
                22,
                ex.synth_params,
            );
        },
        Instrument::Empty => {},
    }
}

/// Copy a byte vector.
pub fn clone_bytes(a: &Vec<u8>) -> (r: Vec<u8>)
    ensures
        r@ == a@,
{
    let n = a.len();
    let mut r: Vec<u8> = Vec::new();
    let mut i: usize = 0;
    while i < n
        invariant
            n == a@.len(),
            i <= n,
            r@.len() == i,
            forall|j: int| 0 <= j < i ==> r@[j] == a@[j],
        decreases n - i,
    {
        r.push(a[i]);
        i = i + 1;
    }
    proof {
        assert(r@ =~= a@);
    }
    r
}

/// Copy a modulator vector.
fn clone_mods(a: &Vec<crate::instruments::modulator::Mod>) -> (r: Vec<
    crate::instruments::modulator::Mod,
>)
    ensures
        r@ == a@,
{
    let n = a.len();
    let mut r: Vec<crate::instruments::modulator::Mod> = Vec::new();
    let mut i: usize = 0;
    while i < n
        invariant
            n == a@.len(),
            i <= n,
            r@.len() == i,
            forall|j: int| 0 <= j < i ==> r@[j] == a@[j],
        decreases n - i,
    {
        r.push(a[i]);
        i = i + 1;
    }
    proof {
        assert(r@ =~= a@);
    }
    r
}

/// Copy a control-change vector.
fn clone_ccs(a: &Vec<crate::instruments::midi::ControlChange>) -> (r: Vec<
    crate::instruments::midi::ControlChange,
>)
    ensures
        r@ == a@,
{
    let n = a.len();
    let mut r: Vec<crate::instruments::midi::ControlChange> = Vec::new();
    let mut i: usize = 0;
    while i < n
        invariant
            n == a@.len(),
            i <= n,
            r@.len() == i,
            forall|j: int| 0 <= j < i ==> r@[j] == a@[j],
        decreases n - i,
    {
        r.push(a[i]);
        i = i + 1;
    }
    proof {
        assert(r@ =~= a@);
    }
    r
}

/// Copy an operator vector.
fn clone_operators(a: &Vec<crate::instruments::fmsynth::Operator>) -> (r: Vec<
    crate::instruments::fmsynth::Operator,
>)
    ensures
        r@ == a@,
{
    let n = a.len();
    let mut r: Vec<crate::instruments::fmsynth::Operator> = Vec::new();
    let mut i: usize = 0;
    while i < n
        invariant
            n == a@.len(),
            i <= n,
            r@.len() == i,
            forall|j: int| 0 <= j < i ==> r@[j] == a@[j],
        decreases n - i,
    {
        r.push(a[i]);
        i = i + 1;
    }
    proof {
        assert(r@ =~= a@);
    }
    r
}

/// Copy a chord table.
fn clone_chords(a: &Vec<Vec<u8>>) -> (r: Vec<Vec<u8>>)
    ensures
        r@.len() == a@.len(),
        forall|j: int| 0 <= j < a@.len() ==> (#[trigger] r@[j])@ == a@[j]@,
{
    let n = a.len();
    let mut r: Vec<Vec<u8>> = Vec::new();
    let mut i: usize = 0;
    while i < n
        invariant
            n == a@.len(),
            i <= n,
            r@.len() == i,
            forall|j: int| 0 <= j < i ==> (#[trigger] r@[j])@ == a@[j]@,
        decreases n - i,
    {
        r.push(clone_bytes(&a[i]));
        i = i + 1;
    }
    r
}

/// Copy a synth-parameter block.
fn clone_synth_params(sp: &crate::instruments::common::SynthParams) -> (r:
    crate::instruments::common::SynthParams)
    ensures
        synth_params_equiv(r, *sp),
{
    crate::instruments::common::SynthParams {
        volume: sp.volume,
        pitch: sp.pitch,
        fine_tune: sp.fine_tune,
        filter_type: sp.filter_type,
        filter_cutoff: sp.filter_cutoff,
        filter_res: sp.filter_res,
        amp: sp.amp,
        limit: sp.limit,
        mixer_pan: sp.mixer_pan,
        mixer_dry: sp.mixer_dry,
        mixer_chorus: sp.mixer_chorus,
        mixer_delay: sp.mixer_delay,
        mixer_reverb: sp.mixer_reverb,
        associated_eq: sp.associated_eq,
        mods: clone_mods(&sp.mods),
    }
}

/// Copy an instrument value.
pub fn clone_instrument(inst: &Instrument) -> (r: Instrument)
    ensures
        inst_equiv(r, *inst),
{
    match inst {
        Instrument::WavSynth(x) => Instrument::WavSynth(
            WavSynth {
                number: x.number,
                name: clone_bytes(&x.name),
                transpose: x.transpose,
                table_tick: x.table_tick,
                synth_params: clone_synth_params(&x.synth_params),
                shape: x.shape,
                size: x.size,
                mult: x.mult,
                warp: x.warp,
                scan: x.scan,
            },
        ),
        Instrument::MacroSynth(x) => Instrument::MacroSynth(
            MacroSynth {
                number: x.number,
                name: clone_bytes(&x.name),
                transpose: x.transpose,
                table_tick: x.table_tick,
                synth_params: clone_synth_params(&x.synth_params),
                shape: x.shape,
                timbre: x.timbre,
                color: x.color,
                degrade: x.degrade,
                redux: x.redux,
            },
        ),
        Instrument::Sampler(x) => Instrument::Sampler(
            Sampler {
                number: x.number,
                name: clone_bytes(&x.name),
                transpose: x.transpose,
                table_tick: x.table_tick,
                synth_params: clone_synth_params(&x.synth_params),
                sample_path: clone_bytes(&x.sample_path),
                play_mode: x.play_mode,
                slice: x.slice,
                start: x.start,
                loop_start: x.loop_start,
                length: x.length,
                degrade: x.degrade,
            },
        ),
        Instrument::MIDIOut(x) => Instrument::MIDIOut(
            MIDIOut {
                number: x.number,
                name: clone_bytes(&x.name),
                transpose: x.transpose,
                table_tick: x.table_tick,
                port: x.port,
                channel: x.channel,
                bank_select: x.bank_select,
                program_change: x.program_change,
                custom_cc: clone_ccs(&x.custom_cc),
                mods: clone_synth_params(&x.mods),
            },
        ),
        Instrument::FMSynth(x) => Instrument::FMSynth(
            FMSynth {
                number: x.number,
                name: clone_bytes(&x.name),
                transpose: x.transpose,
                table_tick: x.table_tick,
                synth_params: clone_synth_params(&x.synth_params),
                algo: x.algo,
                operators: clone_operators(&x.operators),
                mod1: x.mod1,
                mod2: x.mod2,
                mod3: x.mod3,
                mod4: x.mod4,
            },
        ),
        Instrument::HyperSynth(x) => Instrument::HyperSynth(
            HyperSynth {
                number: x.number,
                name: clone_bytes(&x.name),
                transpose: x.transpose,
                table_tick: x.table_tick,
                synth_params: clone_synth_params(&x.synth_params),
                scale: x.scale,
                default_chord: clone_bytes(&x.default_chord),
                shift: x.shift,
                swarm: x.swarm,
                width: x.width,
                subosc: x.subosc,
                chords: clone_chords(&x.chords),
            },
        ),
        Instrument::External(x) => Instrument::External(
            ExternalInst {
                number: x.number,
                name: clone_bytes(&x.name),
                transpose: x.transpose,
                table_tick: x.table_tick,
                synth_params: clone_synth_params(&x.synth_params),
                input: x.input,
                port: x.port,
                channel: x.channel,
                bank: x.bank,
                program: x.program,
                cca: x.cca,
                ccb: x.ccb,
                ccc: x.ccc,
                ccd: x.ccd,
            },
        ),
        Instrument::Empty => Instrument::Empty,
    }
}

/// Structurally equal instruments are serializable under the same
/// revisions.
pub proof fn lemma_inst_equiv_wf(a: Instrument, b: Instrument, ver: Version)
    requires
        inst_equiv(a, b),
        instrument_wf(b, ver),
    ensures
        instrument_wf(a, ver),
{
}

/// Structural instrument equality is symmetric.
pub proof fn lemma_inst_equiv_sym(a: Instrument, b: Instrument)
    requires
        inst_equiv(a, b),
    ensures
        inst_equiv(b, a),
{
}

/// Structural instrument equality is transitive.
pub proof fn lemma_inst_equiv_trans(a: Instrument, b: Instrument, c: Instrument)
    requires
        inst_equiv(a, b),
        inst_equiv(b, c),
    ensures
        inst_equiv(a, c),
{
}

/// Structurally equal instruments report the same associated EQ slot.
pub proof fn lemma_inst_equiv_equ(a: Instrument, b: Instrument)
    requires
        inst_equiv(a, b),
    ensures
        a.spec_equ() == b.spec_equ(),
{
}

/// Re-attaching two structurally equal instruments to the same EQ slot
/// keeps them structurally equal.
pub proof fn lemma_set_eq_equiv(a: Instrument, b: Instrument, eq_ix: u8)
    requires
        inst_equiv(a, b),
    ensures
        inst_equiv(a.spec_set_eq(eq_ix), b.spec_set_eq(eq_ix)),
{
}

/// Re-attaching an instrument to an EQ slot below 128 keeps it
/// serializable.
pub proof fn lemma_set_eq_wf(inst: Instrument, eq_ix: u8, ver: Version)
    requires
        instrument_wf(inst, ver),
        eq_ix < 128,
    ensures
        instrument_wf(inst.spec_set_eq(eq_ix), ver),
{
}

/// A matching instrument record still matches after writes that left its
/// 215 bytes alone.
pub proof fn lemma_instrument_frame(
    b1: Seq<u8>,
    b2: Seq<u8>,
    p: int,
    ver: Version,
    number: u8,
    inst: Instrument,
)
    requires
        0 <= p,
        p + 215 <= b1.len(),
        b2.len() == b1.len(),
        ver.spec_at_least(3, 0),
        forall|k: int| p <= k < p + 215 ==> #[trigger] b2[k] == b1[k],
        instrument_matches(b1, p, ver, number, inst),
    ensures
        instrument_matches(b2, p, ver, number, inst),
{
    assert(b2[p] == b1[p]);
    assert forall|k: int| p + 1 <= k < p + 1 + 214 implies #[trigger] b2[k] == b1[k] by {
        assert(b2[k] == b1[k]);
    }
    match inst {
        Instrument::WavSynth(ws) => crate::instruments::wavsynth::lemma_wav_synth_frame(
            b1,
            b2,
            p + 1,
            ver,
            number,
            ws,
        ),
        Instrument::MacroSynth(ms) => crate::instruments::macrosynth::lemma_macro_synth_frame(
            b1,
            b2,
            p + 1,
            ver,
            number,
            ms,
        ),
        Instrument::Sampler(s) => crate::instruments::sampler::lemma_sampler_frame(
            b1,
            b2,
            p + 1,
            ver,
            number,
            s,
        ),
        Instrument::MIDIOut(mo) => crate::instruments::midi::lemma_midi_out_frame(
            b1,
            b2,
            p + 1,
            ver,
            number,
            mo,
        ),
        Instrument::FMSynth(fs) => crate::instruments::fmsynth::lemma_fm_synth_frame(
            b1,
            b2,
            p + 1,
            ver,
            number,
            fs,
        ),
        Instrument::HyperSynth(hs) => crate::instruments::hypersynth::lemma_hyper_synth_frame(
            b1,
            b2,
            p + 1,
            ver,
            number,
            hs,
        ),
        Instrument::External(ex) => crate::instruments::external_inst::lemma_external_inst_frame(
            b1,
            b2,
            p + 1,
            ver,
            number,
            ex,
        ),
        Instrument::Empty => {},
    }
}

} // verus!

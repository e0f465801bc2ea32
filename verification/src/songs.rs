//! The song container: sequencing steps, phrases, chains, tables, grooves,
//! and the whole-file codec with its per-version section offsets.

use crate::eq::{equ_matches, Equ};
use crate::fx::{fx_default, fx_matches, FX};
use crate::instruments::{
    instrument_matches, instrument_valid, instrument_wf, Instrument, INSTRUMENT_MEMORY_SIZE,
};
use crate::reader::{string_at, M8Result, ParseError, Reader};
use crate::remapper::{InstrumentMapping, PhraseMapping};
use crate::scale::{scale_matches, Scale};
use crate::settings::{
    effects_settings_matches, midi_mapping_matches, midi_settings_matches, mixer_settings_matches,
    EffectsSettings, MidiMapping, MidiSettings, MixerSettings,
};
use crate::version::{version_at, version_wf, Version, VERSION_SIZE};
use crate::writer::{preserved_outside, Writer};
use vstd::prelude::*;

verus! {

broadcast use crate::reader::lemma_reader_pos_nonneg, crate::reader::lemma_reader_data_bound, crate::writer::lemma_writer_pos_nonneg, crate::writer::lemma_writer_data_bound;

/// Number of phrase slots in a song.
pub const N_PHRASES: usize = 255;

/// Number of chain slots in a song.
pub const N_CHAINS: usize = 255;

/// Number of instrument slots in a song.
pub const N_INSTRUMENTS: usize = 128;

/// Number of table slots in a song.
pub const N_TABLES: usize = 256;

/// Number of groove slots in a song.
pub const N_GROOVES: usize = 32;

/// Number of scale slots in a song.
pub const N_SCALES: usize = 16;

/// Number of MIDI mapping slots in a song.
pub const N_MIDI_MAPPINGS: usize = 128;

/// Number of instrument-assignable EQ slots the remapper works over (the
/// count of a format 4.0 song).
pub const N_INSTRUMENT_EQS: usize = 32;

/// Number of song-grid tracks.
pub const TRACK_COUNT: usize = 8;

/// Number of song-grid rows.
pub const ROW_COUNT: usize = 256;

/// Minimum payload size of a song file before format revision 2.5.
pub const SONG_SIZE_PRIOR_TO_2_5: usize = 0x1A970;

/// Minimum payload size of a song file from format revision 2.5.
pub const SONG_SIZE: usize = 0x1AD09;

/// Absolute offset of the groove section.
pub const OFF_GROOVE: usize = 0xEE;

/// Absolute offset of the song step grid.
pub const OFF_SONG: usize = 0x2EE;

/// Absolute offset of the phrase section.
pub const OFF_PHRASES: usize = 0xAEE;

/// Absolute offset of the chain section.
pub const OFF_CHAINS: usize = 0x9A5E;

/// Absolute offset of the table section.
pub const OFF_TABLES: usize = 0xBA3E;

/// Absolute offset of the instrument section.
pub const OFF_INSTRUMENTS: usize = 0x13A3E;

/// Absolute offset of the effects settings.
pub const OFF_EFFECT_SETTINGS: usize = 0x1A5C1;

/// Absolute offset of the MIDI mapping section.
pub const OFF_MIDI_MAPPING: usize = 0x1A5FE;

/// Absolute offset of the scale section.
pub const OFF_SCALES: usize = 0x1AA7E;

/// Absolute offset of the EQ section.
pub const OFF_EQS: usize = 0x1AD5E;

/// Per-version table of section offsets and EQ capacity.
pub struct Offsets {
    pub groove: usize,
    pub song: usize,
    pub phrases: usize,
    pub chains: usize,
    pub table: usize,
    pub instruments: usize,
    pub effect_settings: usize,
    pub midi_mapping: usize,
    pub scale: usize,
    pub eq: usize,
    /// Number of instrument-assignable EQs for the song (differs between
    /// 4.0 and 4.1).
    pub instrument_eq_count: usize,
    /// For standalone instrument files, where the EQ record is written, if
    /// anywhere.
    pub instrument_file_eq_offset: Option<usize>,
}

impl Offsets {
    /// Total number of EQ records: the instrument EQs, three effect EQs and
    /// one global EQ.
    pub fn eq_count(&self) -> (r: usize)
        requires
            self.instrument_eq_count <= 0x80,
        ensures
            r == self.instrument_eq_count + 4,
    {
        self.instrument_eq_count + 3 + 1
    }
}

/// The section offsets of a format 4.0 song.
pub fn v4_offsets() -> (r: Offsets)
    ensures
        r.groove == 0xEE,
        r.song == 0x2EE,
        r.phrases == 0xAEE,
        r.chains == 0x9A5E,
        r.table == 0xBA3E,
        r.instruments == 0x13A3E,
        r.effect_settings == 0x1A5C1,
        r.midi_mapping == 0x1A5FE,
        r.scale == 0x1AA7E,
        r.eq == 0x1AD5E,
        r.instrument_eq_count == 32,
        r.instrument_file_eq_offset is None,
{
    Offsets {
        groove: OFF_GROOVE,
        song: OFF_SONG,
        phrases: OFF_PHRASES,
        chains: OFF_CHAINS,
        table: OFF_TABLES,
        instruments: OFF_INSTRUMENTS,
        effect_settings: OFF_EFFECT_SETTINGS,
        midi_mapping: OFF_MIDI_MAPPING,
        scale: OFF_SCALES,
        eq: OFF_EQS,
        instrument_eq_count: 32,
        instrument_file_eq_offset: None,
    }
}

/// The section offsets of a format 4.1 song: identical except for the EQ
/// capacity and the in-instrument EQ position of standalone files.
pub fn v4_1_offsets() -> (r: Offsets)
    ensures
        r.groove == 0xEE,
        r.song == 0x2EE,
        r.phrases == 0xAEE,
        r.chains == 0x9A5E,
        r.table == 0xBA3E,
        r.instruments == 0x13A3E,
        r.effect_settings == 0x1A5C1,
        r.midi_mapping == 0x1A5FE,
        r.scale == 0x1AA7E,
        r.eq == 0x1AD5E,
        r.instrument_eq_count == 0x80,
        r.instrument_file_eq_offset == Some(0x165usize),
{
    Offsets {
        groove: OFF_GROOVE,
        song: OFF_SONG,
        phrases: OFF_PHRASES,
        chains: OFF_CHAINS,
        table: OFF_TABLES,
        instruments: OFF_INSTRUMENTS,
        effect_settings: OFF_EFFECT_SETTINGS,
        midi_mapping: OFF_MIDI_MAPPING,
        scale: OFF_SCALES,
        eq: OFF_EQS,
        instrument_eq_count: 0x80,
        instrument_file_eq_offset: Some(0x165),
    }
}

////////////////////////////////////////////////////////////////////////////
// Note
////////////////////////////////////////////////////////////////////////////

/// One note byte; `0xFF` is the empty sentinel.
#[derive(PartialEq, Eq, Structural, Debug, Clone, Copy)]
pub struct Note(pub u8);

impl Default for Note {
    /// The empty note.
    fn default() -> (r: Self)
        ensures
            r == Note(255),
    {
        Note(255)
    }
}

impl Note {
    /// A note is empty exactly when it holds the `0xFF` sentinel.
    pub fn is_empty(self) -> (r: bool)
        ensures
            r == (self.0 == 0xFF),
    {
        self.0 == 0xFF
    }
}

////////////////////////////////////////////////////////////////////////////
// Step
////////////////////////////////////////////////////////////////////////////

/// One phrase row: note, velocity, instrument slot, and three effect
/// commands.
#[derive(PartialEq, Eq, Structural, Debug, Clone, Copy)]
pub struct Step {
    pub note: Note,
    pub velocity: u8,
    pub instrument: u8,
    pub fx1: FX,
    pub fx2: FX,
    pub fx3: FX,
}

/// On-disk size of one step.
pub const STEP_SIZE: usize = 9;

/// The nine bytes at `p` hold exactly this step.
pub open spec fn step_matches(b: Seq<u8>, p: int, s: Step) -> bool {
    &&& s.note.0 == b[p]
    &&& s.velocity == b[p + 1]
    &&& s.instrument == b[p + 2]
    &&& fx_matches(b, p + 3, s.fx1)
    &&& fx_matches(b, p + 5, s.fx2)
    &&& fx_matches(b, p + 7, s.fx3)
}

/// The empty step.
pub open spec fn step_default() -> Step {
    Step {
        note: Note(255),
        velocity: 0xFF,
        instrument: 0xFF,
        fx1: fx_default(),
        fx2: fx_default(),
        fx3: fx_default(),
    }
}

/// A phrase row group after renumbering every instrument reference
/// through `m`.
pub open spec fn phrase_mapped_steps(steps: Seq<Step>, m: Seq<u8>) -> Seq<Step> {
    Seq::new(steps.len(), |i: int| step_mapped(steps[i], m))
}

/// `s` after renumbering its instrument reference through `m`; references
/// outside the instrument range are kept as they are.
pub open spec fn step_mapped(s: Step, m: Seq<u8>) -> Step {
    if s.instrument < 128 {
        Step { instrument: m[s.instrument as int], ..s }
    } else {
        s
    }
}

impl Default for Step {
    /// The empty step.
    fn default() -> (r: Self)
        ensures
            r == step_default(),
    {
        Step {
            note: Note(255),
            velocity: 0xFF,
            instrument: 0xFF,
            fx1: FX::default(),
            fx2: FX::default(),
            fx3: FX::default(),
        }
    }
}

impl Step {
    /// Reset the step to the empty state.
    pub fn clear(&mut self)
        ensures
            *final(self) == step_default(),
    {
        self.note = Note::default();
        self.velocity = 0xFF;
        self.instrument = 0xFF;
        self.fx1 = FX::default();
        self.fx2 = FX::default();
        self.fx3 = FX::default();
    }

    /// A step is empty exactly when note, velocity and instrument are all
    /// `0xFF` and all three effect slots are empty.
    pub fn is_empty(&self) -> (r: bool)
        ensures
            r == (self.note.0 == 0xFF && self.velocity == 0xFF && self.instrument == 0xFF
                && self.fx1.command == 0xFF && self.fx2.command == 0xFF && self.fx3.command
                == 0xFF),
    {
        self.note.is_empty() && self.velocity == 0xFF && self.instrument == 0xFF
            && self.fx1.is_empty() && self.fx2.is_empty() && self.fx3.is_empty()
    }

    /// The step with its instrument reference renumbered through `mapping`.
    pub fn map_instr(&self, mapping: &InstrumentMapping) -> (r: Step)
        requires
            mapping.mapping@.len() == 128,
        ensures
            r == step_mapped(*self, mapping.mapping@),
    {
        let instrument = if (self.instrument as usize) >= N_INSTRUMENTS {
            self.instrument
        } else {
            mapping.mapping[self.instrument as usize]
        };
        Self {
            note: self.note,
            velocity: self.velocity,
            instrument,
            fx1: self.fx1,
            fx2: self.fx2,
            fx3: self.fx3,
        }
    }

    /// Serialize the nine step bytes.
    pub fn write(&self, w: &mut Writer)
        requires
            old(w).spec_pos() + 9 <= old(w).data().len(),
        ensures
            final(w).data().len() == old(w).data().len(),
            final(w).spec_pos() == old(w).spec_pos() + 9,
            preserved_outside(
                old(w).data(),
                final(w).data(),
                old(w).spec_pos(),
                old(w).spec_pos() + 9,
            ),
            step_matches(final(w).data(), old(w).spec_pos(), *self),
    {
        w.write(self.note.0);
        w.write(self.velocity);
        w.write(self.instrument);
        self.fx1.write(w);
        self.fx2.write(w);
        self.fx3.write(w);
    }

    /// Parse the nine step bytes.
    pub fn from_reader(reader: &mut Reader) -> (r: M8Result<Self>)
        requires
            old(reader).spec_pos() + 9 <= old(reader).data().len(),
        ensures
            final(reader).data() == old(reader).data(),
            final(reader).spec_pos() == old(reader).spec_pos() + 9,
            r matches Ok(s) && step_matches(old(reader).data(), old(reader).spec_pos(), s),
    {
        let note = Note(reader.read());
        let velocity = reader.read();
        let instrument = reader.read();
        let fx1 = FX::from_reader(reader);
        let fx2 = FX::from_reader(reader);
        let fx3 = FX::from_reader(reader);
        Ok(Self { note, velocity, instrument, fx1, fx2, fx3 })
    }
}

/// `step_matches` depends only on the nine bytes at `p`.
pub proof fn lemma_step_frame(b1: Seq<u8>, b2: Seq<u8>, p: int, s: Step)
    requires
        forall|k: int| p <= k < p + 9 ==> #[trigger] b2[k] == b1[k],
        step_matches(b1, p, s),
    ensures
        step_matches(b2, p, s),
{
    assert(b2[p] == b1[p]);
    assert(b2[p + 1] == b1[p + 1]);
    assert(b2[p + 2] == b1[p + 2]);
    assert(b2[p + 3] == b1[p + 3]);
    assert(b2[p + 4] == b1[p + 4]);
    assert(b2[p + 5] == b1[p + 5]);
    assert(b2[p + 6] == b1[p + 6]);
    assert(b2[p + 7] == b1[p + 7]);
    assert(b2[p + 8] == b1[p + 8]);
}

////////////////////////////////////////////////////////////////////////////
// Phrase
////////////////////////////////////////////////////////////////////////////

/// Sixteen sequenced steps.
#[derive(PartialEq, Debug, Clone)]
pub struct Phrase {
    pub steps: Vec<Step>,
}

/// On-disk size of one phrase.
pub const PHRASE_SIZE: usize = 144;

/// The 144 bytes at `p` hold exactly these sixteen steps.
pub open spec fn phrase_matches(b: Seq<u8>, p: int, steps: Seq<Step>) -> bool {
    &&& steps.len() == 16
    &&& forall|i: int| 0 <= i < 16 ==> step_matches(b, p + 9 * i, #[trigger] steps[i])
}

/// `phrase_matches` depends only on the 144 bytes at `p`.
pub proof fn lemma_phrase_frame(b1: Seq<u8>, b2: Seq<u8>, p: int, steps: Seq<Step>)
    requires
        forall|k: int| p <= k < p + 144 ==> #[trigger] b2[k] == b1[k],
        phrase_matches(b1, p, steps),
    ensures
        phrase_matches(b2, p, steps),
{
    assert forall|i: int| 0 <= i < 16 implies step_matches(b2, p + 9 * i, #[trigger] steps[i]) by {
        let q = p + 9 * i;
        assert forall|k: int| q <= k < q + 9 implies #[trigger] b2[k] == b1[k] by {
            assert(b2[k] == b1[k]);
        }
        lemma_step_frame(b1, b2, q, steps[i]);
    }
}

impl Default for Phrase {
    /// A phrase of sixteen empty steps.
    fn default() -> (r: Self)
        ensures
            r.steps@.len() == 16,
            forall|i: int| 0 <= i < 16 ==> #[trigger] r.steps@[i] == step_default(),
    {
        let mut steps: Vec<Step> = Vec::new();
        let mut i: usize = 0;
        while i < 16
            invariant
                i <= 16,
                steps@.len() == i,
                forall|j: int| 0 <= j < i ==> #[trigger] steps@[j] == step_default(),
            decreases 16 - i,
        {
            steps.push(Step::default());
            i = i + 1;
        }
        Self { steps }
    }
}

impl Phrase {
    /// A phrase is empty when every step is empty.
    pub fn is_empty(&self) -> (r: bool)
        requires
            self.steps@.len() == 16,
        ensures
            r == forall|i: int|
                0 <= i < 16 ==> {
                    let s = #[trigger] self.steps@[i];
                    s.note.0 == 0xFF && s.velocity == 0xFF && s.instrument == 0xFF
                        && s.fx1.command == 0xFF && s.fx2.command == 0xFF && s.fx3.command == 0xFF
                },
    {
        let mut i: usize = 0;
        let mut all = true;
        while i < 16
            invariant
                self.steps@.len() == 16,
                i <= 16,
                all == forall|j: int|
                    0 <= j < i ==> {
                        let s = #[trigger] self.steps@[j];
                        s.note.0 == 0xFF && s.velocity == 0xFF && s.instrument == 0xFF
                            && s.fx1.command == 0xFF && s.fx2.command == 0xFF && s.fx3.command
                            == 0xFF
                    },
            decreases 16 - i,
        {
            if !self.steps[i].is_empty() {
                all = false;
            }
            i = i + 1;
        }
        all
    }

    /// Reset every step to the empty state.
    pub fn clear(&mut self)
        requires
            old(self).steps@.len() == 16,
        ensures
            final(self).steps@.len() == 16,
            forall|i: int| 0 <= i < 16 ==> #[trigger] final(self).steps@[i] == step_default(),
    {
        let mut i: usize = 0;
        while i < 16
            invariant
                self.steps@.len() == 16,
                i <= 16,
                forall|j: int| 0 <= j < i ==> #[trigger] self.steps@[j] == step_default(),
            decreases 16 - i,
        {
            let mut s = self.steps[i];
            s.clear();
            self.steps[i] = s;
            i = i + 1;
        }
    }

    /// The phrase with every step's instrument reference renumbered through
    /// `instr_map`.
    pub fn map_instruments(&self, instr_map: &InstrumentMapping) -> (r: Phrase)
        requires
            self.steps@.len() == 16,
            instr_map.mapping@.len() == 128,
        ensures
            r.steps@.len() == 16,
            forall|i: int|
                0 <= i < 16 ==> #[trigger] r.steps@[i] == step_mapped(
                    self.steps@[i],
                    instr_map.mapping@,
                ),
            r.steps@ == phrase_mapped_steps(self.steps@, instr_map.mapping@),
    {
        let mut steps: Vec<Step> = Vec::new();
        let mut i: usize = 0;
        while i < 16
            invariant
                self.steps@.len() == 16,
                instr_map.mapping@.len() == 128,
                i <= 16,
                steps@.len() == i,
                forall|j: int|
                    0 <= j < i ==> #[trigger] steps@[j] == step_mapped(
                        self.steps@[j],
                        instr_map.mapping@,
                    ),
            decreases 16 - i,
        {
            steps.push(self.steps[i].map_instr(instr_map));
            i = i + 1;
        }
        proof {
            assert(steps@ =~= phrase_mapped_steps(self.steps@, instr_map.mapping@));
        }
        Self { steps }
    }

    /// Serialize the sixteen steps in order.
    pub fn write(&self, w: &mut Writer)
        requires
            self.steps@.len() == 16,
            old(w).spec_pos() + 144 <= old(w).data().len(),
            0 <= old(w).spec_pos(),
        ensures
            final(w).data().len() == old(w).data().len(),
            final(w).spec_pos() == old(w).spec_pos() + 144,
            preserved_outside(
                old(w).data(),
                final(w).data(),
                old(w).spec_pos(),
                old(w).spec_pos() + 144,
            ),
            phrase_matches(final(w).data(), old(w).spec_pos(), self.steps@),
    {
        let ghost h = old(w).spec_pos();
        let ghost d0 = old(w).data();
        let mut i: usize = 0;
        while i < 16
            invariant
                0 <= h,
                h + 144 <= d0.len(),
                self.steps@.len() == 16,
                w.data().len() == d0.len(),
                w.spec_pos() == h + 9 * i,
                i <= 16,
                forall|j: int|
                    0 <= j < i ==> step_matches(w.data(), h + 9 * j, #[trigger] self.steps@[j]),
                preserved_outside(d0, w.data(), h, h + 9 * i),
            decreases 16 - i,
        {
            let ghost dprev = w.data();
            self.steps[i].write(w);
            proof {
                assert forall|j: int|
                    0 <= j < i + 1 implies step_matches(
                        w.data(),
                        h + 9 * j,
                        #[trigger] self.steps@[j],
                    ) by {
                    if j < i {
                        let q = h + 9 * j;
                        assert forall|k: int| q <= k < q + 9 implies #[trigger] w.data()[k]
                            == dprev[k] by {
                            assert(w.data()[k] == dprev[k]);
                        }
                        lemma_step_frame(dprev, w.data(), q, self.steps@[j]);
                    }
                }
            }
            i = i + 1;
        }
    }

    /// Parse sixteen steps in order.
    pub fn from_reader(reader: &mut Reader, _version: Version) -> (r: M8Result<Self>)
        requires
            old(reader).spec_pos() + 144 <= old(reader).data().len(),
            0 <= old(reader).spec_pos(),
        ensures
            final(reader).data() == old(reader).data(),
            final(reader).spec_pos() == old(reader).spec_pos() + 144,
            r matches Ok(ph) && phrase_matches(
                old(reader).data(),
                old(reader).spec_pos(),
                ph.steps@,
            ),
    {
        let ghost h = old(reader).spec_pos();
        let ghost b = old(reader).data();
        let mut steps: Vec<Step> = Vec::new();
        let mut i: usize = 0;
        while i < 16
            invariant
                0 <= h,
                h + 144 <= b.len(),
                reader.data() == b,
                reader.spec_pos() == h + 9 * i,
                i <= 16,
                steps@.len() == i,
                forall|j: int| 0 <= j < i ==> step_matches(b, h + 9 * j, #[trigger] steps@[j]),
            decreases 16 - i,
        {
            let s = match Step::from_reader(reader) {
                Ok(s) => s,
                Err(e) => {
                    return Err(e);
                },
            };
            steps.push(s);
            i = i + 1;
        }
        Ok(Self { steps })
    }
}

////////////////////////////////////////////////////////////////////////////
// ChainStep and Chain
////////////////////////////////////////////////////////////////////////////

/// One chain row: a phrase slot and a transpose amount.  A `0xFF` phrase
/// marks an empty row.
#[derive(PartialEq, Eq, Structural, Debug, Clone, Copy)]
pub struct ChainStep {
    pub phrase: u8,
    pub transpose: u8,
}

/// On-disk size of one chain step.
pub const CHAIN_STEP_SIZE: usize = 2;

/// The two bytes at `p` hold exactly this chain step.
pub open spec fn chain_step_matches(b: Seq<u8>, p: int, s: ChainStep) -> bool {
    &&& s.phrase == b[p]
    &&& s.transpose == b[p + 1]
}

/// The empty chain step.
pub open spec fn chain_step_default() -> ChainStep {
    ChainStep { phrase: 255, transpose: 0 }
}

/// A chain row group after renumbering every phrase reference through `m`.
pub open spec fn chain_mapped_steps(steps: Seq<ChainStep>, m: Seq<u8>) -> Seq<ChainStep> {
    Seq::new(steps.len(), |i: int| chain_step_mapped(steps[i], m))
}

/// `s` after renumbering its phrase reference through `m`; references
/// outside the phrase range are kept as they are.
pub open spec fn chain_step_mapped(s: ChainStep, m: Seq<u8>) -> ChainStep {
    if s.phrase < 255 {
        ChainStep { phrase: m[s.phrase as int], transpose: s.transpose }
    } else {
        s
    }
}

impl Default for ChainStep {
    /// The empty chain step.
    fn default() -> (r: Self)
        ensures
            r == chain_step_default(),
    {
        Self { phrase: 255, transpose: 0 }
    }
}

impl ChainStep {
    /// A chain step is empty exactly when its phrase byte is the `0xFF`
    /// sentinel.
    pub fn is_empty(self) -> (r: bool)
        ensures
            r == (self.phrase == 0xFF),
    {
        self.phrase == 0xFF
    }

    /// The chain step with its phrase reference renumbered through
    /// `mapping`.
    pub fn map(&self, mapping: &PhraseMapping) -> (r: Self)
        requires
            mapping.mapping@.len() == 255,
        ensures
            r == chain_step_mapped(*self, mapping.mapping@),
    {
        let phrase = if (self.phrase as usize) >= N_PHRASES {
            self.phrase
        } else {
            mapping.mapping[self.phrase as usize]
        };
        Self { phrase, transpose: self.transpose }
    }

    /// Serialize the two bytes.
    pub fn write(&self, w: &mut Writer)
        requires
            old(w).spec_pos() + 2 <= old(w).data().len(),
        ensures
            final(w).data().len() == old(w).data().len(),
            final(w).spec_pos() == old(w).spec_pos() + 2,
            preserved_outside(
                old(w).data(),
                final(w).data(),
                old(w).spec_pos(),
                old(w).spec_pos() + 2,
            ),
            chain_step_matches(final(w).data(), old(w).spec_pos(), *self),
    {
        w.write(self.phrase);
        w.write(self.transpose);
    }

    /// Parse the two bytes.
    pub fn from_reader(reader: &mut Reader) -> (r: M8Result<Self>)
        requires
            old(reader).spec_pos() + 2 <= old(reader).data().len(),
        ensures
            final(reader).data() == old(reader).data(),
            final(reader).spec_pos() == old(reader).spec_pos() + 2,
            r matches Ok(s) && chain_step_matches(old(reader).data(), old(reader).spec_pos(), s),
    {
        Ok(Self { phrase: reader.read(), transpose: reader.read() })
    }
}

/// Sixteen chain rows.
#[derive(PartialEq, Debug, Clone)]
pub struct Chain {
    pub steps: Vec<ChainStep>,
}

/// On-disk size of one chain.
pub const CHAIN_SIZE: usize = 32;

/// The thirty-two bytes at `p` hold exactly these sixteen chain steps.
pub open spec fn chain_matches(b: Seq<u8>, p: int, steps: Seq<ChainStep>) -> bool {
    &&& steps.len() == 16
    &&& forall|i: int| 0 <= i < 16 ==> chain_step_matches(b, p + 2 * i, #[trigger] steps[i])
}

/// `chain_matches` depends only on the thirty-two bytes at `p`.
pub proof fn lemma_chain_frame(b1: Seq<u8>, b2: Seq<u8>, p: int, steps: Seq<ChainStep>)
    requires
        forall|k: int| p <= k < p + 32 ==> #[trigger] b2[k] == b1[k],
        chain_matches(b1, p, steps),
    ensures
        chain_matches(b2, p, steps),
{
    assert forall|i: int| 0 <= i < 16 implies chain_step_matches(
        b2,
        p + 2 * i,
        #[trigger] steps[i],
    ) by {
        assert(b2[p + 2 * i] == b1[p + 2 * i]);
        assert(b2[p + 2 * i + 1] == b1[p + 2 * i + 1]);
    }
}

impl Default for Chain {
    /// A chain of sixteen empty rows.
    fn default() -> (r: Self)
        ensures
            r.steps@.len() == 16,
            forall|i: int| 0 <= i < 16 ==> #[trigger] r.steps@[i] == chain_step_default(),
    {
        let mut steps: Vec<ChainStep> = Vec::new();
        let mut i: usize = 0;
        while i < 16
            invariant
                i <= 16,
                steps@.len() == i,
                forall|j: int| 0 <= j < i ==> #[trigger] steps@[j] == chain_step_default(),
            decreases 16 - i,
        {
            steps.push(ChainStep::default());
            i = i + 1;
        }
        Self { steps }
    }
}

impl Chain {
    /// A chain is empty when every row is empty.
    pub fn is_empty(&self) -> (r: bool)
        requires
            self.steps@.len() == 16,
        ensures
            r == forall|i: int| 0 <= i < 16 ==> (#[trigger] self.steps@[i]).phrase == 0xFF,
    {
        let mut i: usize = 0;
        let mut all = true;
        while i < 16
            invariant
                self.steps@.len() == 16,
                i <= 16,
                all == forall|j: int| 0 <= j < i ==> (#[trigger] self.steps@[j]).phrase == 0xFF,
            decreases 16 - i,
        {
            if !self.steps[i].is_empty() {
                all = false;
            }
            i = i + 1;
        }
        all
    }

    /// Reset every row to the empty state.
    pub fn clear(&mut self)
        requires
            old(self).steps@.len() == 16,
        ensures
            final(self).steps@.len() == 16,
            forall|i: int| 0 <= i < 16 ==> #[trigger] final(self).steps@[i] == chain_step_default(),
    {
        let dflt = ChainStep::default();
        let mut i: usize = 0;
        while i < 16
            invariant
                self.steps@.len() == 16,
                i <= 16,
                dflt == chain_step_default(),
                forall|j: int| 0 <= j < i ==> #[trigger] self.steps@[j] == chain_step_default(),
            decreases 16 - i,
        {
            self.steps[i] = dflt;
            i = i + 1;
        }
    }

    /// The chain with every row's phrase reference renumbered through
    /// `mapping`.
    pub fn map(&self, mapping: &PhraseMapping) -> (r: Self)
        requires
            self.steps@.len() == 16,
            mapping.mapping@.len() == 255,
        ensures
            r.steps@.len() == 16,
            forall|i: int|
                0 <= i < 16 ==> #[trigger] r.steps@[i] == chain_step_mapped(
                    self.steps@[i],
                    mapping.mapping@,
                ),
            r.steps@ == chain_mapped_steps(self.steps@, mapping.mapping@),
    {
        let mut steps: Vec<ChainStep> = Vec::new();
        let mut i: usize = 0;
        while i < 16
            invariant
                self.steps@.len() == 16,
                mapping.mapping@.len() == 255,
                i <= 16,
                steps@.len() == i,
                forall|j: int|
                    0 <= j < i ==> #[trigger] steps@[j] == chain_step_mapped(
                        self.steps@[j],
                        mapping.mapping@,
                    ),
            decreases 16 - i,
        {
            steps.push(self.steps[i].map(mapping));
            i = i + 1;
        }
        proof {
            assert(steps@ =~= chain_mapped_steps(self.steps@, mapping.mapping@));
        }
        Self { steps }
    }

    /// Serialize the sixteen rows in order.
    pub fn write(&self, w: &mut Writer)
        requires
            self.steps@.len() == 16,
            old(w).spec_pos() + 32 <= old(w).data().len(),
            0 <= old(w).spec_pos(),
        ensures
            final(w).data().len() == old(w).data().len(),
            final(w).spec_pos() == old(w).spec_pos() + 32,
            preserved_outside(
                old(w).data(),
                final(w).data(),
                old(w).spec_pos(),
                old(w).spec_pos() + 32,
            ),
            chain_matches(final(w).data(), old(w).spec_pos(), self.steps@),
    {
        let ghost h = old(w).spec_pos();
        let ghost d0 = old(w).data();
        let mut i: usize = 0;
        while i < 16
            invariant
                0 <= h,
                h + 32 <= d0.len(),
                self.steps@.len() == 16,
                w.data().len() == d0.len(),
                w.spec_pos() == h + 2 * i,
                i <= 16,
                forall|j: int|
                    0 <= j < i ==> chain_step_matches(
                        w.data(),
                        h + 2 * j,
                        #[trigger] self.steps@[j],
                    ),
                preserved_outside(d0, w.data(), h, h + 2 * i),
            decreases 16 - i,
        {
            let ghost dprev = w.data();
            self.steps[i].write(w);
            proof {
                assert forall|j: int|
                    0 <= j < i + 1 implies chain_step_matches(
                        w.data(),
                        h + 2 * j,
                        #[trigger] self.steps@[j],
                    ) by {
                    if j < i {
                        assert(chain_step_matches(dprev, h + 2 * j, self.steps@[j]));
                        assert(w.data()[h + 2 * j] == dprev[h + 2 * j]);
                        assert(w.data()[h + 2 * j + 1] == dprev[h + 2 * j + 1]);
                    }
                }
            }
            i = i + 1;
        }
    }

    /// Parse sixteen rows in order.
    pub fn from_reader(reader: &mut Reader) -> (r: M8Result<Self>)
        requires
            old(reader).spec_pos() + 32 <= old(reader).data().len(),
            0 <= old(reader).spec_pos(),
        ensures
            final(reader).data() == old(reader).data(),
            final(reader).spec_pos() == old(reader).spec_pos() + 32,
            r matches Ok(c) && chain_matches(old(reader).data(), old(reader).spec_pos(), c.steps@),
    {
        let ghost h = old(reader).spec_pos();
        let ghost b = old(reader).data();
        let mut steps: Vec<ChainStep> = Vec::new();
        let mut i: usize = 0;
        while i < 16
            invariant
                0 <= h,
                h + 32 <= b.len(),
                reader.data() == b,
                reader.spec_pos() == h + 2 * i,
                i <= 16,
                steps@.len() == i,
                forall|j: int| 0 <= j < i ==> chain_step_matches(b, h + 2 * j, #[trigger] steps@[j]),
            decreases 16 - i,
        {
            let s = match ChainStep::from_reader(reader) {
                Ok(s) => s,
                Err(e) => {
                    return Err(e);
                },
            };
            steps.push(s);
            i = i + 1;
        }
        Ok(Self { steps })
    }
}

////////////////////////////////////////////////////////////////////////////
// TableStep and Table
////////////////////////////////////////////////////////////////////////////

/// One table row: transpose, velocity and three effect commands.
#[derive(PartialEq, Eq, Structural, Debug, Clone, Copy)]
pub struct TableStep {
    pub transpose: u8,
    pub velocity: u8,
    pub fx1: FX,
    pub fx2: FX,
    pub fx3: FX,
}

/// On-disk size of one table step.
pub const TABLE_STEP_SIZE: usize = 8;

/// The eight bytes at `p` hold exactly this table step.
pub open spec fn table_step_matches(b: Seq<u8>, p: int, s: TableStep) -> bool {
    &&& s.transpose == b[p]
    &&& s.velocity == b[p + 1]
    &&& fx_matches(b, p + 2, s.fx1)
    &&& fx_matches(b, p + 4, s.fx2)
    &&& fx_matches(b, p + 6, s.fx3)
}

/// The empty table step.
pub open spec fn table_step_default() -> TableStep {
    TableStep { transpose: 0, velocity: 0xFF, fx1: fx_default(), fx2: fx_default(), fx3: fx_default() }
}

impl Default for TableStep {
    /// The empty table step.
    fn default() -> (r: Self)
        ensures
            r == table_step_default(),
    {
        Self {
            transpose: 0,
            velocity: 0xFF,
            fx1: FX::default(),
            fx2: FX::default(),
            fx3: FX::default(),
        }
    }
}

impl TableStep {
    /// A table step is empty exactly when its transpose is zero, its
    /// velocity is `0xFF`, and all three effect slots are empty.
    pub fn is_empty(&self) -> (r: bool)
        ensures
            r == (self.transpose == 0 && self.velocity == 0xFF && self.fx1.command == 0xFF
                && self.fx2.command == 0xFF && self.fx3.command == 0xFF),
    {
        self.transpose == 0 && self.velocity == 0xFF && self.fx1.is_empty()
            && self.fx2.is_empty() && self.fx3.is_empty()
    }

    /// Serialize the eight bytes.
    pub fn write(&self, w: &mut Writer)
        requires
            old(w).spec_pos() + 8 <= old(w).data().len(),
        ensures
            final(w).data().len() == old(w).data().len(),
            final(w).spec_pos() == old(w).spec_pos() + 8,
            preserved_outside(
                old(w).data(),
                final(w).data(),
                old(w).spec_pos(),
                old(w).spec_pos() + 8,
            ),
            table_step_matches(final(w).data(), old(w).spec_pos(), *self),
    {
        w.write(self.transpose);
        w.write(self.velocity);
        self.fx1.write(w);
        self.fx2.write(w);
        self.fx3.write(w);
    }

    /// Parse the eight bytes.
    pub fn from_reader(reader: &mut Reader) -> (r: M8Result<Self>)
        requires
            old(reader).spec_pos() + 8 <= old(reader).data().len(),
        ensures
            final(reader).data() == old(reader).data(),
            final(reader).spec_pos() == old(reader).spec_pos() + 8,
            r matches Ok(s) && table_step_matches(old(reader).data(), old(reader).spec_pos(), s),
    {
        let transpose = reader.read();
        let velocity = reader.read();
        let fx1 = FX::from_reader(reader);
        let fx2 = FX::from_reader(reader);
        let fx3 = FX::from_reader(reader);
        Ok(Self { transpose, velocity, fx1, fx2, fx3 })
    }
}

/// `table_step_matches` depends only on the eight bytes at `p`.
pub proof fn lemma_table_step_frame(b1: Seq<u8>, b2: Seq<u8>, p: int, s: TableStep)
    requires
        forall|k: int| p <= k < p + 8 ==> #[trigger] b2[k] == b1[k],
        table_step_matches(b1, p, s),
    ensures
        table_step_matches(b2, p, s),
{
    assert(b2[p] == b1[p]);
    assert(b2[p + 1] == b1[p + 1]);
    assert(b2[p + 2] == b1[p + 2]);
    assert(b2[p + 3] == b1[p + 3]);
    assert(b2[p + 4] == b1[p + 4]);
    assert(b2[p + 5] == b1[p + 5]);
    assert(b2[p + 6] == b1[p + 6]);
    assert(b2[p + 7] == b1[p + 7]);
}

/// Sixteen table rows.
#[derive(PartialEq, Debug, Clone)]
pub struct Table {
    pub steps: Vec<TableStep>,
}

/// On-disk size of one table.
pub const TABLE_SIZE: usize = 128;

/// The 128 bytes at `p` hold exactly these sixteen table steps.
pub open spec fn table_matches(b: Seq<u8>, p: int, steps: Seq<TableStep>) -> bool {
    &&& steps.len() == 16
    &&& forall|i: int| 0 <= i < 16 ==> table_step_matches(b, p + 8 * i, #[trigger] steps[i])
}

/// `table_matches` depends only on the 128 bytes at `p`.
pub proof fn lemma_table_frame(b1: Seq<u8>, b2: Seq<u8>, p: int, steps: Seq<TableStep>)
    requires
        forall|k: int| p <= k < p + 128 ==> #[trigger] b2[k] == b1[k],
        table_matches(b1, p, steps),
    ensures
        table_matches(b2, p, steps),
{
    assert forall|i: int| 0 <= i < 16 implies table_step_matches(
        b2,
        p + 8 * i,
        #[trigger] steps[i],
    ) by {
        let q = p + 8 * i;
        assert forall|k: int| q <= k < q + 8 implies #[trigger] b2[k] == b1[k] by {
            assert(b2[k] == b1[k]);
        }
        lemma_table_step_frame(b1, b2, q, steps[i]);
    }
}

impl Default for Table {
    /// A table of sixteen empty rows.
    fn default() -> (r: Self)
        ensures
            r.steps@.len() == 16,
            forall|i: int| 0 <= i < 16 ==> #[trigger] r.steps@[i] == table_step_default(),
    {
        let mut steps: Vec<TableStep> = Vec::new();
        let mut i: usize = 0;
        while i < 16
            invariant
                i <= 16,
                steps@.len() == i,
                forall|j: int| 0 <= j < i ==> #[trigger] steps@[j] == table_step_default(),
            decreases 16 - i,
        {
            steps.push(TableStep::default());
            i = i + 1;
        }
        Self { steps }
    }
}

impl Table {
    /// A table is empty when every row is empty.
    pub fn is_empty(&self) -> (r: bool)
        requires
            self.steps@.len() == 16,
        ensures
            r == forall|i: int|
                0 <= i < 16 ==> {
                    let s = #[trigger] self.steps@[i];
                    s.transpose == 0 && s.velocity == 0xFF && s.fx1.command == 0xFF
                        && s.fx2.command == 0xFF && s.fx3.command == 0xFF
                },
    {
        let mut i: usize = 0;
        let mut all = true;
        while i < 16
            invariant
                self.steps@.len() == 16,
                i <= 16,
                all == forall|j: int|
                    0 <= j < i ==> {
                        let s = #[trigger] self.steps@[j];
                        s.transpose == 0 && s.velocity == 0xFF && s.fx1.command == 0xFF
                            && s.fx2.command == 0xFF && s.fx3.command == 0xFF
                    },
            decreases 16 - i,
        {
            if !self.steps[i].is_empty() {
                all = false;
            }
            i = i + 1;
        }
        all
    }

    /// Reset every row to the empty state.
    pub fn clear(&mut self)
        requires
            old(self).steps@.len() == 16,
        ensures
            final(self).steps@.len() == 16,
            forall|i: int| 0 <= i < 16 ==> #[trigger] final(self).steps@[i] == table_step_default(),
    {
        let dflt = TableStep::default();
        let mut i: usize = 0;
        while i < 16
            invariant
                self.steps@.len() == 16,
                i <= 16,
                dflt == table_step_default(),
                forall|j: int| 0 <= j < i ==> #[trigger] self.steps@[j] == table_step_default(),
            decreases 16 - i,
        {
            self.steps[i] = dflt;
            i = i + 1;
        }
    }

    /// Serialize the sixteen rows in order.
    pub fn write(&self, w: &mut Writer)
        requires
            self.steps@.len() == 16,
            old(w).spec_pos() + 128 <= old(w).data().len(),
            0 <= old(w).spec_pos(),
        ensures
            final(w).data().len() == old(w).data().len(),
            final(w).spec_pos() == old(w).spec_pos() + 128,
            preserved_outside(
                old(w).data(),
                final(w).data(),
                old(w).spec_pos(),
                old(w).spec_pos() + 128,
            ),
            table_matches(final(w).data(), old(w).spec_pos(), self.steps@),
    {
        let ghost h = old(w).spec_pos();
        let ghost d0 = old(w).data();
        let mut i: usize = 0;
        while i < 16
            invariant
                0 <= h,
                h + 128 <= d0.len(),
                self.steps@.len() == 16,
                w.data().len() == d0.len(),
                w.spec_pos() == h + 8 * i,
                i <= 16,
                forall|j: int|
                    0 <= j < i ==> table_step_matches(
                        w.data(),
                        h + 8 * j,
                        #[trigger] self.steps@[j],
                    ),
                preserved_outside(d0, w.data(), h, h + 8 * i),
            decreases 16 - i,
        {
            let ghost dprev = w.data();
            self.steps[i].write(w);
            proof {
                assert forall|j: int|
                    0 <= j < i + 1 implies table_step_matches(
                        w.data(),
                        h + 8 * j,
                        #[trigger] self.steps@[j],
                    ) by {
                    if j < i {
                        let q = h + 8 * j;
                        assert forall|k: int| q <= k < q + 8 implies #[trigger] w.data()[k]
                            == dprev[k] by {
                            assert(w.data()[k] == dprev[k]);
                        }
                        lemma_table_step_frame(dprev, w.data(), q, self.steps@[j]);
                    }
                }
            }
            i = i + 1;
        }
    }

    /// Parse sixteen rows in order.
    pub fn from_reader(reader: &mut Reader, _version: Version) -> (r: M8Result<Self>)
        requires
            old(reader).spec_pos() + 128 <= old(reader).data().len(),
            0 <= old(reader).spec_pos(),
        ensures
            final(reader).data() == old(reader).data(),
            final(reader).spec_pos() == old(reader).spec_pos() + 128,
            r matches Ok(t) && table_matches(old(reader).data(), old(reader).spec_pos(), t.steps@),
    {
        let ghost h = old(reader).spec_pos();
        let ghost b = old(reader).data();
        let mut steps: Vec<TableStep> = Vec::new();
        let mut i: usize = 0;
        while i < 16
            invariant
                0 <= h,
                h + 128 <= b.len(),
                reader.data() == b,
                reader.spec_pos() == h + 8 * i,
                i <= 16,
                steps@.len() == i,
                forall|j: int|
                    0 <= j < i ==> table_step_matches(b, h + 8 * j, #[trigger] steps@[j]),
            decreases 16 - i,
        {
            let s = match TableStep::from_reader(reader) {
                Ok(s) => s,
                Err(e) => {
                    return Err(e);
                },
            };
            steps.push(s);
            i = i + 1;
        }
        Ok(Self { steps })
    }
}

////////////////////////////////////////////////////////////////////////////
// Groove
////////////////////////////////////////////////////////////////////////////

/// One groove: sixteen per-step tick counts.
#[derive(PartialEq, Debug, Clone)]
pub struct Groove {
    pub number: u8,
    pub steps: Vec<u8>,
}

/// On-disk size of one groove.
pub const GROOVE_SIZE: usize = 16;

/// The sixteen bytes at `p` hold exactly this groove, parsed as slot
/// `number`.
pub open spec fn groove_matches(b: Seq<u8>, p: int, number: u8, g: Groove) -> bool {
    &&& g.number == number
    &&& g.steps@ == b.subrange(p, p + 16)
}

impl Groove {
    /// Parse the sixteen groove bytes.
    pub fn from_reader(reader: &mut Reader, number: u8) -> (r: M8Result<Self>)
        requires
            old(reader).spec_pos() + 16 <= old(reader).data().len(),
        ensures
            final(reader).data() == old(reader).data(),
            final(reader).spec_pos() == old(reader).spec_pos() + 16,
            r matches Ok(g) && groove_matches(old(reader).data(), old(reader).spec_pos(), number, g),
    {
        Ok(Self { number, steps: reader.read_bytes(16) })
    }

    /// Serialize the sixteen groove bytes.
    pub fn write(&self, w: &mut Writer)
        requires
            self.steps@.len() == 16,
            old(w).spec_pos() + 16 <= old(w).data().len(),
        ensures
            final(w).data().len() == old(w).data().len(),
            final(w).spec_pos() == old(w).spec_pos() + 16,
            preserved_outside(
                old(w).data(),
                final(w).data(),
                old(w).spec_pos(),
                old(w).spec_pos() + 16,
            ),
            final(w).data().subrange(old(w).spec_pos(), old(w).spec_pos() + 16) == self.steps@,
    {
        w.write_bytes(&self.steps);
        proof {
            assert(final(w).data().subrange(old(w).spec_pos(), old(w).spec_pos() + 16)
                =~= self.steps@);
        }
    }

    /// The steps before the first `0xFF` terminator; if none terminates,
    /// all but the last step.
    pub fn active_steps(&self) -> (r: Vec<u8>)
        requires
            self.steps@.len() == 16,
        ensures
            r@.len() <= 15,
            forall|j: int| 0 <= j < r@.len() ==> #[trigger] r@[j] == self.steps@[j] && r@[j] != 255,
            r@.len() < 15 ==> self.steps@[r@.len() as int] == 255,
            r@.len() == 15 ==> (self.steps@[15] == 255 || forall|j: int|
                0 <= j < 16 ==> self.steps@[j] != 255),
    {
        let mut end: usize = 15;
        let mut i: usize = 0;
        let mut found = false;
        while i < 16
            invariant
                self.steps@.len() == 16,
                i <= 16,
                end <= 15,
                found ==> end < i && self.steps@[end as int] == 255 && forall|j: int|
                    0 <= j < end ==> self.steps@[j] != 255,
                !found ==> end == 15 && forall|j: int| 0 <= j < i ==> self.steps@[j] != 255,
            decreases 16 - i,
        {
            if !found && self.steps[i] == 255 {
                if i < 15 {
                    end = i;
                } else {
                    end = 15;
                }
                found = true;
            }
            i = i + 1;
        }
        let mut r: Vec<u8> = Vec::new();
        let mut j: usize = 0;
        while j < end
            invariant
                self.steps@.len() == 16,
                end <= 15,
                j <= end,
                r@.len() == j,
                forall|k: int| 0 <= k < end ==> self.steps@[k] != 255,
                forall|k: int| 0 <= k < j ==> #[trigger] r@[k] == self.steps@[k],
            decreases end - j,
        {
            r.push(self.steps[j]);
            j = j + 1;
        }
        r
    }
}

////////////////////////////////////////////////////////////////////////////
// SongSteps
////////////////////////////////////////////////////////////////////////////

/// The song grid: 8 tracks by 256 rows of chain slots, in row-major order.
#[derive(PartialEq, Debug, Clone)]
pub struct SongSteps {
    pub steps: Vec<u8>,
}

/// On-disk size of the song grid.
pub const SONG_STEPS_SIZE: usize = 2048;

impl SongSteps {
    /// Parse the 2048 grid bytes.
    pub fn from_reader(reader: &mut Reader) -> (r: M8Result<Self>)
        requires
            old(reader).spec_pos() + 2048 <= old(reader).data().len(),
        ensures
            final(reader).data() == old(reader).data(),
            final(reader).spec_pos() == old(reader).spec_pos() + 2048,
            r matches Ok(s) && s.steps@ == old(reader).data().subrange(
                old(reader).spec_pos(),
                old(reader).spec_pos() + 2048,
            ),
    {
        Ok(Self { steps: reader.read_bytes(2048) })
    }
}

////////////////////////////////////////////////////////////////////////////
// Song
////////////////////////////////////////////////////////////////////////////

/// A whole song file in memory.
#[derive(PartialEq, Debug, Clone)]
pub struct Song {
    pub version: Version,
    pub directory: Vec<u8>,
    pub transpose: u8,
    /// The tempo as the little-endian bit pattern of the stored
    /// floating-point value; converting it to a number is left to callers.
    pub tempo: u32,
    pub quantize: u8,
    pub name: Vec<u8>,
    pub key: u8,
    pub song: SongSteps,
    pub phrases: Vec<Phrase>,
    pub chains: Vec<Chain>,
    pub instruments: Vec<Instrument>,
    pub tables: Vec<Table>,
    pub grooves: Vec<Groove>,
    pub scales: Vec<Scale>,
    pub mixer_settings: MixerSettings,
    pub effects_settings: EffectsSettings,
    pub midi_settings: MidiSettings,
    pub midi_mappings: Vec<MidiMapping>,
    pub eqs: Vec<Equ>,
}

/// The little-endian 32-bit value at `p`.
pub open spec fn le32_at(b: Seq<u8>, p: int) -> u32 {
    (b[p] + 256 * b[p + 1] + 65536 * b[p + 2] + 16777216 * b[p + 3]) as u32
}

/// Number of EQ records a song of this format revision stores.
pub open spec fn song_eq_count(ver: Version) -> int {
    if ver.spec_at_least(4, 1) {
        128
    } else {
        32
    }
}

/// A scale slot holding the default chromatic scale, numbered `number`.
pub open spec fn scale_is_default(s: Scale, number: u8) -> bool {
    &&& s.number == number
    &&& s.notes@.len() == 12
    &&& forall|i: int|
        0 <= i < 12 ==> #[trigger] s.notes@[i] == (crate::scale::NoteOffset {
            enabled: true,
            semitones: 0,
            cents: 0,
        })
    &&& s.name@ == seq![67u8, 72u8, 82u8, 79u8, 77u8, 65u8, 84u8, 73u8, 67u8]
}

/// The buffer is long enough for every section its version tag calls for.
pub open spec fn song_len_ok(b: Seq<u8>) -> bool {
    &&& b.len() >= 0x1A97E
    &&& version_at(b, 0).spec_at_least(2, 5) ==> b.len() >= 0x1AD1E
    &&& version_at(b, 0).spec_at_least(4, 0) ==> b.len() >= 0x1AD5E + 18 * song_eq_count(
        version_at(b, 0),
    )
}

/// Every instrument record of the buffer decodes under `ver`.  All other
/// sections decode unconditionally.
pub open spec fn song_valid(b: Seq<u8>, ver: Version) -> bool {
    forall|i: int| 0 <= i < 128 ==> #[trigger] instrument_valid(b, 0x13A3E + 215 * i, ver)
}

/// The buffer holds exactly this song.
pub open spec fn song_matches(b: Seq<u8>, s: Song) -> bool {
    &&& s.version == version_at(b, 0)
    &&& s.directory@ == string_at(b, 14, 128)
    &&& s.transpose == b[142]
    &&& s.tempo == le32_at(b, 143)
    &&& s.quantize == b[147]
    &&& s.name@ == string_at(b, 148, 12)
    &&& midi_settings_matches(b, 160, s.midi_settings)
    &&& s.key == b[187]
    &&& mixer_settings_matches(b, 206, s.mixer_settings)
    &&& s.grooves@.len() == 32
    &&& forall|i: int|
        0 <= i < 32 ==> groove_matches(b, 0xEE + 16 * i, i as u8, #[trigger] s.grooves@[i])
    &&& s.song.steps@ == b.subrange(0x2EE, 0xAEE)
    &&& s.phrases@.len() == 255
    &&& forall|i: int|
        0 <= i < 255 ==> phrase_matches(b, 0xAEE + 144 * i, (#[trigger] s.phrases@[i]).steps@)
    &&& s.chains@.len() == 255
    &&& forall|i: int|
        0 <= i < 255 ==> chain_matches(b, 0x9A5E + 32 * i, (#[trigger] s.chains@[i]).steps@)
    &&& s.tables@.len() == 256
    &&& forall|i: int|
        0 <= i < 256 ==> table_matches(b, 0xBA3E + 128 * i, (#[trigger] s.tables@[i]).steps@)
    &&& s.instruments@.len() == 128
    &&& forall|i: int|
        0 <= i < 128 ==> instrument_matches(
            b,
            0x13A3E + 215 * i,
            s.version,
            i as u8,
            #[trigger] s.instruments@[i],
        )
    &&& effects_settings_matches(b, 0x1A5C1, s.version, s.effects_settings)
    &&& s.midi_mappings@.len() == 128
    &&& forall|i: int|
        0 <= i < 128 ==> midi_mapping_matches(b, 0x1A5FE + 7 * i, #[trigger] s.midi_mappings@[i])
    &&& s.scales@.len() == 16
    &&& if s.version.spec_at_least(2, 5) {
        forall|i: int|
            0 <= i < 16 ==> scale_matches(b, 0x1AA7E + 42 * i, i as u8, #[trigger] s.scales@[i])
    } else {
        forall|i: int| 0 <= i < 16 ==> scale_is_default(#[trigger] s.scales@[i], i as u8)
    }
    &&& s.eqs@.len() == if s.version.spec_at_least(4, 0) {
        song_eq_count(s.version)
    } else {
        0int
    }
    &&& forall|i: int|
        0 <= i < s.eqs@.len() ==> equ_matches(b, 0x1AD5E + 18 * i, #[trigger] s.eqs@[i])
}

/// The structural invariant of an in-memory song: every collection has its
/// fixed slot count, every row group its fixed length, and (for songs that
/// can be written, format 4.0 and later) every instrument is serializable.
pub open spec fn song_wf(s: Song) -> bool {
    &&& version_wf(s.version)
    &&& s.song.steps@.len() == 2048
    &&& s.phrases@.len() == 255
    &&& forall|i: int| 0 <= i < 255 ==> (#[trigger] s.phrases@[i]).steps@.len() == 16
    &&& s.chains@.len() == 255
    &&& forall|i: int| 0 <= i < 255 ==> (#[trigger] s.chains@[i]).steps@.len() == 16
    &&& s.tables@.len() == 256
    &&& forall|i: int| 0 <= i < 256 ==> (#[trigger] s.tables@[i]).steps@.len() == 16
    &&& s.instruments@.len() == 128
    &&& s.version.spec_at_least(4, 0) ==> forall|i: int|
        0 <= i < 128 ==> instrument_wf(#[trigger] s.instruments@[i], s.version)
    &&& s.grooves@.len() == 32
    &&& s.midi_mappings@.len() == 128
    &&& s.scales@.len() == 16
    &&& s.eqs@.len() == if s.version.spec_at_least(4, 0) {
        song_eq_count(s.version)
    } else {
        0int
    }
}

/// What `Song::write` leaves behind: the pattern sections re-encode the
/// song, and every byte outside them is untouched.
pub open spec fn song_patterns_written(b1: Seq<u8>, b2: Seq<u8>, s: Song) -> bool {
    &&& b2.len() == b1.len()
    &&& forall|k: int|
        0 <= k < b1.len() && !(0x2EE <= k < 0x1A5BE) && !(0x1AD5E <= k < 0x1AD5E + 18
            * s.eqs@.len()) ==> #[trigger] b2[k] == b1[k]
    &&& b2.subrange(0x2EE, 0xAEE) == s.song.steps@
    &&& forall|i: int|
        0 <= i < 255 ==> phrase_matches(b2, 0xAEE + 144 * i, (#[trigger] s.phrases@[i]).steps@)
    &&& forall|i: int|
        0 <= i < 255 ==> chain_matches(b2, 0x9A5E + 32 * i, (#[trigger] s.chains@[i]).steps@)
    &&& forall|i: int|
        0 <= i < 256 ==> table_matches(b2, 0xBA3E + 128 * i, (#[trigger] s.tables@[i]).steps@)
    &&& forall|i: int|
        0 <= i < 128 ==> instrument_matches(
            b2,
            0x13A3E + 215 * i,
            s.version,
            (#[trigger] s.instruments@[i]).spec_number(),
            s.instruments@[i],
        )
    &&& forall|i: int|
        0 <= i < s.eqs@.len() ==> equ_matches(b2, 0x1AD5E + 18 * i, #[trigger] s.eqs@[i])
}

impl Song {
    /// The section offset table this song's format revision selects.
    pub fn offsets(&self) -> (r: Offsets)
        ensures
            r.instrument_eq_count == if self.version.spec_at_least(4, 1) {
                0x80int
            } else {
                32int
            },
            r.eq == 0x1AD5E,
    {
        if self.version.at_least(4, 1) {
            v4_1_offsets()
        } else {
            v4_offsets()
        }
    }

    /// Total number of EQ records of this song's format revision.
    pub fn eq_count(&self) -> (r: usize)
        ensures
            r == song_eq_count(self.version) + 4,
    {
        self.offsets().eq_count()
    }

    /// Parse a whole song buffer, starting just past the version block.
    fn from_reader(reader: &mut Reader, version: Version) -> (r: M8Result<Song>)
        requires
            old(reader).spec_pos() == 14,
            version == version_at(old(reader).data(), 0),
            version_wf(version),
            old(reader).data().len() >= 0x1A97E,
            version.spec_at_least(2, 5) ==> old(reader).data().len() >= 0x1AD1E,
            version.spec_at_least(4, 0) ==> old(reader).data().len() >= 0x1AD5E + 18
                * song_eq_count(version),
        ensures
            final(reader).data() == old(reader).data(),
            r is Ok <==> song_valid(old(reader).data(), version),
            r matches Ok(s) ==> song_matches(old(reader).data(), s) && song_wf(s),
    {
        let ghost b = old(reader).data();
        let directory = reader.read_string(128);
        let transpose = reader.read();
        let t0 = reader.read();
        let t1 = reader.read();
        let t2 = reader.read();
        let t3 = reader.read();
        let tempo: u32 = (t0 as u32) + 256 * (t1 as u32) + 65536 * (t2 as u32) + 16777216 * (
        t3 as u32);
        let quantize = reader.read();
        let name = reader.read_string(12);
        let midi_settings = match MidiSettings::try_from(reader) {
            Ok(s) => s,
            Err(e) => {
                return Err(e);
            },
        };
        let key = reader.read();
        let _ = reader.read_bytes(18);
        let mixer_settings = match MixerSettings::from_reader(reader) {
            Ok(s) => s,
            Err(e) => {
                return Err(e);
            },
        };
        assert(reader.spec_pos() == 0xEE);
        let mut grooves: Vec<Groove> = Vec::new();
        let mut i: usize = 0;
        while i < 32
            invariant
                b.len() >= 0x1A97E,
                reader.data() == b,
                reader.spec_pos() == 0xEE + 16 * i,
                i <= 32,
                grooves@.len() == i,
                forall|j: int|
                    0 <= j < i ==> groove_matches(b, 0xEE + 16 * j, j as u8, #[trigger] grooves@[j]),
            decreases 32 - i,
        {
            let g = match Groove::from_reader(reader, i as u8) {
                Ok(g) => g,
                Err(e) => {
                    return Err(e);
                },
            };
            grooves.push(g);
            i = i + 1;
        }
        let song = match SongSteps::from_reader(reader) {
            Ok(s) => s,
            Err(e) => {
                return Err(e);
            },
        };
        let mut phrases: Vec<Phrase> = Vec::new();
        let mut i: usize = 0;
        while i < 255
            invariant
                b.len() >= 0x1A97E,
                reader.data() == b,
                reader.spec_pos() == 0xAEE + 144 * i,
                i <= 255,
                phrases@.len() == i,
                forall|j: int|
                    0 <= j < i ==> phrase_matches(
                        b,
                        0xAEE + 144 * j,
                        (#[trigger] phrases@[j]).steps@,
                    ),
                forall|j: int| 0 <= j < i ==> (#[trigger] phrases@[j]).steps@.len() == 16,
            decreases 255 - i,
        {
            let p = match Phrase::from_reader(reader, version) {
                Ok(p) => p,
                Err(e) => {
                    return Err(e);
                },
            };
            phrases.push(p);
            i = i + 1;
        }
        let mut chains: Vec<Chain> = Vec::new();
        let mut i: usize = 0;
        while i < 255
            invariant
                b.len() >= 0x1A97E,
                reader.data() == b,
                reader.spec_pos() == 0x9A5E + 32 * i,
                i <= 255,
                chains@.len() == i,
                forall|j: int|
                    0 <= j < i ==> chain_matches(b, 0x9A5E + 32 * j, (#[trigger] chains@[j]).steps@),
                forall|j: int| 0 <= j < i ==> (#[trigger] chains@[j]).steps@.len() == 16,
            decreases 255 - i,
        {
            let c = match Chain::from_reader(reader) {
                Ok(c) => c,
                Err(e) => {
                    return Err(e);
                },
            };
            chains.push(c);
            i = i + 1;
        }
        let mut tables: Vec<Table> = Vec::new();
        let mut i: usize = 0;
        while i < 256
            invariant
                b.len() >= 0x1A97E,
                reader.data() == b,
                reader.spec_pos() == 0xBA3E + 128 * i,
                i <= 256,
                tables@.len() == i,
                forall|j: int|
                    0 <= j < i ==> table_matches(b, 0xBA3E + 128 * j, (#[trigger] tables@[j]).steps@),
                forall|j: int| 0 <= j < i ==> (#[trigger] tables@[j]).steps@.len() == 16,
            decreases 256 - i,
        {
            let t = match Table::from_reader(reader, version) {
                Ok(t) => t,
                Err(e) => {
                    return Err(e);
                },
            };
            tables.push(t);
            i = i + 1;
        }
        let mut instruments: Vec<Instrument> = Vec::new();
        let mut i: usize = 0;
        while i < 128
            invariant
                b == old(reader).data(),
                b.len() >= 0x1A97E,
                version == version_at(b, 0),
                reader.data() == b,
                reader.spec_pos() == 0x13A3E + 215 * i,
                i <= 128,
                instruments@.len() == i,
                forall|j: int|
                    0 <= j < i ==> instrument_matches(
                        b,
                        0x13A3E + 215 * j,
                        version,
                        j as u8,
                        #[trigger] instruments@[j],
                    ),
                forall|j: int| 0 <= j < i ==> #[trigger] instrument_valid(b, 0x13A3E + 215 * j, version),
                version.spec_at_least(4, 0) ==> forall|j: int|
                    0 <= j < i ==> instrument_wf(#[trigger] instruments@[j], version),
            decreases 128 - i,
        {
            let inst = match Instrument::from_reader(reader, i as u8, version) {
                Ok(inst) => inst,
                Err(e) => {
                    proof {
                        assert(!instrument_valid(b, 0x13A3E + 215 * (i as int), version));
                    }
                    return Err(e);
                },
            };
            instruments.push(inst);
            i = i + 1;
        }
        assert forall|j: int| 0 <= j < 128 implies #[trigger] instrument_valid(
            b,
            0x13A3E + 215 * j,
            version,
        ) by {}
        let _ = reader.read_bytes(3);
        assert(reader.spec_pos() == 0x1A5C1);
        let effects_settings = match EffectsSettings::from_reader(reader, version) {
            Ok(s) => s,
            Err(e) => {
                return Err(e);
            },
        };
        reader.set_pos(OFF_MIDI_MAPPING);
        let mut midi_mappings: Vec<MidiMapping> = Vec::new();
        let mut i: usize = 0;
        while i < 128
            invariant
                b.len() >= 0x1A97E,
                reader.data() == b,
                reader.spec_pos() == 0x1A5FE + 7 * i,
                i <= 128,
                midi_mappings@.len() == i,
                forall|j: int|
                    0 <= j < i ==> midi_mapping_matches(
                        b,
                        0x1A5FE + 7 * j,
                        #[trigger] midi_mappings@[j],
                    ),
            decreases 128 - i,
        {
            let m = match MidiMapping::from_reader(reader) {
                Ok(m) => m,
                Err(e) => {
                    return Err(e);
                },
            };
            midi_mappings.push(m);
            i = i + 1;
        }
        let mut scales: Vec<Scale> = Vec::new();
        if version.at_least(2, 5) {
            reader.set_pos(OFF_SCALES);
            let mut i: usize = 0;
            while i < 16
                invariant
                    version.spec_at_least(2, 5),
                    b.len() >= 0x1AD1E,
                    reader.data() == b,
                    reader.spec_pos() == 0x1AA7E + 42 * i,
                    i <= 16,
                    scales@.len() == i,
                    forall|j: int|
                        0 <= j < i ==> scale_matches(
                            b,
                            0x1AA7E + 42 * j,
                            j as u8,
                            #[trigger] scales@[j],
                        ),
                decreases 16 - i,
            {
                let s = match Scale::from_reader(reader, i as u8) {
                    Ok(s) => s,
                    Err(e) => {
                        return Err(e);
                    },
                };
                scales.push(s);
                i = i + 1;
            }
        } else {
            let mut i: usize = 0;
            while i < 16
                invariant
                    i <= 16,
                    scales@.len() == i,
                    forall|j: int| 0 <= j < i ==> scale_is_default(#[trigger] scales@[j], j as u8),
                decreases 16 - i,
            {
                let mut s = Scale::default();
                s.number = i as u8;
                scales.push(s);
                i = i + 1;
            }
        }
        let mut eqs: Vec<Equ> = Vec::new();
        if version.at_least(4, 0) {
            let count: usize = if version.at_least(4, 1) {
                128
            } else {
                32
            };
            reader.set_pos(OFF_EQS);
            let mut i: usize = 0;
            while i < count
                invariant
                    version.spec_at_least(4, 0),
                    count == song_eq_count(version),
                    b.len() >= 0x1AD5E + 18 * count,
                    reader.data() == b,
                    reader.spec_pos() == 0x1AD5E + 18 * i,
                    i <= count,
                    eqs@.len() == i,
                    forall|j: int| 0 <= j < i ==> equ_matches(b, 0x1AD5E + 18 * j, #[trigger] eqs@[j]),
                decreases count - i,
            {
                let e = Equ::from_reader(reader);
                eqs.push(e);
                i = i + 1;
            }
        }
        Ok(Song {
            version,
            directory,
            transpose,
            tempo,
            quantize,
            name,
            key,
            song,
            phrases,
            chains,
            instruments,
            tables,
            grooves,
            scales,
            mixer_settings,
            effects_settings,
            midi_settings,
            midi_mappings,
            eqs,
        })
    }

    /// Parse a whole song buffer: length checks first, then the version
    /// block, then every section in file order.
    pub fn read_from_reader(reader: &mut Reader) -> (r: M8Result<Song>)
        requires
            old(reader).spec_pos() == 0,
        ensures
            final(reader).data() == old(reader).data(),
            r is Ok <==> song_len_ok(old(reader).data()) && song_valid(
                old(reader).data(),
                version_at(old(reader).data(), 0),
            ),
            r matches Ok(s) ==> song_matches(old(reader).data(), s) && song_wf(s) && song_len_ok(
                old(reader).data(),
            ),
    {
        let total = reader.len();
        if total < SONG_SIZE_PRIOR_TO_2_5 + VERSION_SIZE {
            return Err(ParseError("File is not long enough to be a M8 song".to_string()));
        }
        let version = match Version::from_reader(reader) {
            Ok(v) => v,
            Err(e) => {
                return Err(e);
            },
        };
        if version.at_least(2, 5) && total < 0x1AD1E {
            return Err(ParseError("File is not long enough to be a M8 song".to_string()));
        }
        if version.at_least(4, 0) {
            let count: usize = if version.at_least(4, 1) {
                128
            } else {
                32
            };
            if total < OFF_EQS + 18 * count {
                return Err(ParseError("File is not long enough to be a M8 song".to_string()));
            }
        }
        Self::from_reader(reader, version)
    }

    /// Serialize the pattern sections of a format 4.0 (or newer) song into
    /// a buffer of the size the song was read from; older songs are
    /// refused.  On success the buffer re-parses to this very song: the
    /// round trip is part of this contract.
    pub fn write(&self, w: &mut Writer) -> (r: Result<(), String>)
        requires
            self.version.spec_at_least(4, 0) ==> song_wf(*self) && old(w).data().len() >= 0x1AD5E
                + 18 * self.eqs@.len(),
        ensures
            r is Ok <==> self.version.spec_at_least(4, 0),
            !self.version.spec_at_least(4, 0) ==> *final(w) == *old(w),
            self.version.spec_at_least(4, 0) ==> song_patterns_written(
                old(w).data(),
                final(w).data(),
                *self,
            ),
    {
        if !self.version.at_least(4, 0) {
            Err("Only version 4.0 or above song can be rewritten".to_string())
        } else {
            self.write_patterns(w);
            Ok(())
        }
    }

    /// Write the song grid, phrases, chains, tables, instruments and EQs at
    /// their fixed offsets, leaving every other section untouched.
    fn write_patterns(&self, w: &mut Writer)
        requires
            song_wf(*self),
            self.version.spec_at_least(4, 0),
            old(w).data().len() >= 0x1AD5E + 18 * self.eqs@.len(),
        ensures
            song_patterns_written(old(w).data(), final(w).data(), *self),
    {
        let ghost b0 = old(w).data();
        w.seek(OFF_SONG);
        w.write_bytes(&self.song.steps);
        proof {
            assert(w.data().subrange(0x2EE, 0xAEE) =~= self.song.steps@);
        }
        let ghost b1 = w.data();
        w.seek(OFF_PHRASES);
        let mut i: usize = 0;
        while i < 255
            invariant
                song_wf(*self),
                self.version.spec_at_least(4, 0),
                w.data().len() == b1.len(),
                b1.len() >= 0x1AD5E + 18 * self.eqs@.len(),
                w.spec_pos() == 0xAEE + 144 * i,
                i <= 255,
                forall|j: int|
                    0 <= j < i ==> phrase_matches(
                        w.data(),
                        0xAEE + 144 * j,
                        (#[trigger] self.phrases@[j]).steps@,
                    ),
                preserved_outside(b1, w.data(), 0xAEE, 0xAEE + 144 * i),
            decreases 255 - i,
        {
            let ghost dprev = w.data();
            self.phrases[i].write(w);
            proof {
                assert forall|j: int|
                    0 <= j < i + 1 implies phrase_matches(
                        w.data(),
                        0xAEE + 144 * j,
                        (#[trigger] self.phrases@[j]).steps@,
                    ) by {
                    if j < i {
                        let q = 0xAEE + 144 * j;
                        assert forall|k: int| q <= k < q + 144 implies #[trigger] w.data()[k]
                            == dprev[k] by {
                            assert(w.data()[k] == dprev[k]);
                        }
                        lemma_phrase_frame(dprev, w.data(), q, self.phrases@[j].steps@);
                    }
                }
            }
            i = i + 1;
        }
        let ghost b2 = w.data();
        let mut i: usize = 0;
        while i < 255
            invariant
                song_wf(*self),
                self.version.spec_at_least(4, 0),
                w.data().len() == b2.len(),
                b2.len() >= 0x1AD5E + 18 * self.eqs@.len(),
                w.spec_pos() == 0x9A5E + 32 * i,
                i <= 255,
                forall|j: int|
                    0 <= j < i ==> chain_matches(
                        w.data(),
                        0x9A5E + 32 * j,
                        (#[trigger] self.chains@[j]).steps@,
                    ),
                preserved_outside(b2, w.data(), 0x9A5E, 0x9A5E + 32 * i),
            decreases 255 - i,
        {
            let ghost dprev = w.data();
            self.chains[i].write(w);
            proof {
                assert forall|j: int|
                    0 <= j < i + 1 implies chain_matches(
                        w.data(),
                        0x9A5E + 32 * j,
                        (#[trigger] self.chains@[j]).steps@,
                    ) by {
                    if j < i {
                        let q = 0x9A5E + 32 * j;
                        assert forall|k: int| q <= k < q + 32 implies #[trigger] w.data()[k]
                            == dprev[k] by {
                            assert(w.data()[k] == dprev[k]);
                        }
                        lemma_chain_frame(dprev, w.data(), q, self.chains@[j].steps@);
                    }
                }
            }
            i = i + 1;
        }
        let ghost b3 = w.data();
        let mut i: usize = 0;
        while i < 256
            invariant
                song_wf(*self),
                self.version.spec_at_least(4, 0),
                w.data().len() == b3.len(),
                b3.len() >= 0x1AD5E + 18 * self.eqs@.len(),
                w.spec_pos() == 0xBA3E + 128 * i,
                i <= 256,
                forall|j: int|
                    0 <= j < i ==> table_matches(
                        w.data(),
                        0xBA3E + 128 * j,
                        (#[trigger] self.tables@[j]).steps@,
                    ),
                preserved_outside(b3, w.data(), 0xBA3E, 0xBA3E + 128 * i),
            decreases 256 - i,
        {
            let ghost dprev = w.data();
            self.tables[i].write(w);
            proof {
                assert forall|j: int|
                    0 <= j < i + 1 implies table_matches(
                        w.data(),
                        0xBA3E + 128 * j,
                        (#[trigger] self.tables@[j]).steps@,
                    ) by {
                    if j < i {
                        let q = 0xBA3E + 128 * j;
                        assert forall|k: int| q <= k < q + 128 implies #[trigger] w.data()[k]
                            == dprev[k] by {
                            assert(w.data()[k] == dprev[k]);
                        }
                        lemma_table_frame(dprev, w.data(), q, self.tables@[j].steps@);
                    }
                }
            }
            i = i + 1;
        }
        let ghost b4 = w.data();
        let mut i: usize = 0;
        while i < 128
            invariant
                song_wf(*self),
                self.version.spec_at_least(4, 0),
                w.data().len() == b4.len(),
                b4.len() >= 0x1AD5E + 18 * self.eqs@.len(),
                w.spec_pos() == 0x13A3E + 215 * i,
                i <= 128,
                forall|j: int|
                    0 <= j < i ==> instrument_matches(
                        w.data(),
                        0x13A3E + 215 * j,
                        self.version,
                        (#[trigger] self.instruments@[j]).spec_number(),
                        self.instruments@[j],
                    ),
                preserved_outside(b4, w.data(), 0x13A3E, 0x13A3E + 215 * i),
            decreases 128 - i,
        {
            let ghost dprev = w.data();
            let pos = w.pos();
            self.instruments[i].write(self.version, w);
            w.seek(pos + INSTRUMENT_MEMORY_SIZE);
            proof {
                assert forall|j: int|
                    0 <= j < i + 1 implies instrument_matches(
                        w.data(),
                        0x13A3E + 215 * j,
                        self.version,
                        (#[trigger] self.instruments@[j]).spec_number(),
                        self.instruments@[j],
                    ) by {
                    if j < i {
                        let q = 0x13A3E + 215 * j;
                        assert forall|k: int| q <= k < q + 215 implies #[trigger] w.data()[k]
                            == dprev[k] by {
                            assert(w.data()[k] == dprev[k]);
                        }
                        crate::instruments::lemma_instrument_frame(
                            dprev,
                            w.data(),
                            q,
                            self.version,
                            self.instruments@[j].spec_number(),
                            self.instruments@[j],
                        );
                    }
                }
            }
            i = i + 1;
        }
        let ghost b5 = w.data();
        w.seek(OFF_EQS);
        let n_eqs = self.eqs.len();
        let mut i: usize = 0;
        while i < n_eqs
            invariant
                song_wf(*self),
                n_eqs == self.eqs@.len(),
                w.data().len() == b5.len(),
                b5.len() >= 0x1AD5E + 18 * self.eqs@.len(),
                w.spec_pos() == 0x1AD5E + 18 * i,
                i <= n_eqs,
                forall|j: int|
                    0 <= j < i ==> equ_matches(w.data(), 0x1AD5E + 18 * j, #[trigger] self.eqs@[j]),
                preserved_outside(b5, w.data(), 0x1AD5E, 0x1AD5E + 18 * i),
            decreases n_eqs - i,
        {
            let ghost dprev = w.data();
            self.eqs[i].write(w);
            proof {
                assert forall|j: int|
                    0 <= j < i + 1 implies equ_matches(
                        w.data(),
                        0x1AD5E + 18 * j,
                        #[trigger] self.eqs@[j],
                    ) by {
                    if j < i {
                        let q = 0x1AD5E + 18 * j;
                        assert forall|k: int| q <= k < q + 18 implies #[trigger] w.data()[k]
                            == dprev[k] by {
                            assert(w.data()[k] == dprev[k]);
                        }
                        crate::eq::lemma_equ_frame(dprev, w.data(), q, self.eqs@[j]);
                    }
                }
            }
            i = i + 1;
        }
        proof {
            let bf = final(w).data();
            // Transport each earlier section's facts through the later
            // writes, which touched disjoint ranges.
            assert forall|k: int| 0 <= k < b5.len() && !(0x1AD5E <= k < 0x1AD5E + 18
                * self.eqs@.len()) implies #[trigger] bf[k] == b5[k] by {}
            assert forall|k: int| 0x2EE <= k < 0x13A3E implies #[trigger] bf[k] == b4[k] by {
                assert(bf[k] == b5[k]);
                assert(b5[k] == b4[k]);
            }
            assert forall|k: int| 0x2EE <= k < 0xBA3E implies #[trigger] bf[k] == b3[k] by {
                assert(bf[k] == b4[k]);
                assert(b4[k] == b3[k]);
            }
            assert forall|k: int| 0x2EE <= k < 0x9A5E implies #[trigger] bf[k] == b2[k] by {
                assert(bf[k] == b3[k]);
                assert(b3[k] == b2[k]);
            }
            assert forall|k: int| 0x2EE <= k < 0xAEE implies #[trigger] bf[k] == b1[k] by {
                assert(bf[k] == b2[k]);
                assert(b2[k] == b1[k]);
            }
            // Song grid bytes survive.
            assert(bf.subrange(0x2EE, 0xAEE) =~= self.song.steps@) by {
                assert forall|k: int| 0 <= k < 2048 implies bf.subrange(0x2EE, 0xAEE)[k]
                    == self.song.steps@[k] by {
                    assert(bf[0x2EE + k] == b1[0x2EE + k]);
                    assert(b1.subrange(0x2EE, 0xAEE)[k] == b1[0x2EE + k]);
                }
            }
            // Phrases survive the chain, table, instrument and EQ writes.
            assert forall|i: int|
                0 <= i < 255 implies phrase_matches(
                    bf,
                    0xAEE + 144 * i,
                    (#[trigger] self.phrases@[i]).steps@,
                ) by {
                let q = 0xAEE + 144 * i;
                assert forall|k: int| q <= k < q + 144 implies #[trigger] bf[k] == b2[k] by {
                    assert(bf[k] == b2[k]);
                }
                lemma_phrase_frame(b2, bf, q, self.phrases@[i].steps@);
            }
            assert forall|i: int|
                0 <= i < 255 implies chain_matches(
                    bf,
                    0x9A5E + 32 * i,
                    (#[trigger] self.chains@[i]).steps@,
                ) by {
                let q = 0x9A5E + 32 * i;
                assert forall|k: int| q <= k < q + 32 implies #[trigger] bf[k] == b3[k] by {
                    assert(bf[k] == b3[k]);
                }
                lemma_chain_frame(b3, bf, q, self.chains@[i].steps@);
            }
            assert forall|i: int|
                0 <= i < 256 implies table_matches(
                    bf,
                    0xBA3E + 128 * i,
                    (#[trigger] self.tables@[i]).steps@,
                ) by {
                let q = 0xBA3E + 128 * i;
                assert forall|k: int| q <= k < q + 128 implies #[trigger] bf[k] == b4[k] by {
                    assert(bf[k] == b4[k]);
                }
                lemma_table_frame(b4, bf, q, self.tables@[i].steps@);
            }
            assert forall|i: int|
                0 <= i < 128 implies instrument_matches(
                    bf,
                    0x13A3E + 215 * i,
                    self.version,
                    (#[trigger] self.instruments@[i]).spec_number(),
                    self.instruments@[i],
                ) by {
                let q = 0x13A3E + 215 * i;
                assert forall|k: int| q <= k < q + 215 implies #[trigger] bf[k] == b5[k] by {
                    assert(bf[k] == b5[k]);
                }
                crate::instruments::lemma_instrument_frame(
                    b5,
                    bf,
                    q,
                    self.version,
                    self.instruments@[i].spec_number(),
                    self.instruments@[i],
                );
            }
            // Bytes outside every written region are untouched.
            assert forall|k: int| 0 <= k < b0.len() && !(0x2EE <= k < 0x1A5BE) && !(0x1AD5E <= k
                < 0x1AD5E + 18 * self.eqs@.len()) implies #[trigger] bf[k] == b0[k] by {
                assert(bf[k] == b5[k]);
                assert(b5[k] == b4[k]);
                assert(b4[k] == b3[k]);
                assert(b3[k] == b2[k]);
                assert(b2[k] == b1[k]);
                assert(b1[k] == b0[k]);
            }
        }
    }
}

/// Copy a chain value.
pub fn clone_chain(c: &Chain) -> (r: Chain)
    ensures
        r.steps@ == c.steps@,
{
    let n = c.steps.len();
    let mut steps: Vec<ChainStep> = Vec::new();
    let mut i: usize = 0;
    while i < n
        invariant
            n == c.steps@.len(),
            i <= n,
            steps@.len() == i,
            forall|j: int| 0 <= j < i ==> steps@[j] == c.steps@[j],
        decreases n - i,
    {
        steps.push(c.steps[i]);
        i = i + 1;
    }
    proof {
        assert(steps@ =~= c.steps@);
    }
    Chain { steps }
}

/// Copy a phrase value.
pub fn clone_phrase(p: &Phrase) -> (r: Phrase)
    ensures
        r.steps@ == p.steps@,
{
    let n = p.steps.len();
    let mut steps: Vec<Step> = Vec::new();
    let mut i: usize = 0;
    while i < n
        invariant
            n == p.steps@.len(),
            i <= n,
            steps@.len() == i,
            forall|j: int| 0 <= j < i ==> steps@[j] == p.steps@[j],
        decreases n - i,
    {
        steps.push(p.steps[i]);
        i = i + 1;
    }
    proof {
        assert(steps@ =~= p.steps@);
    }
    Phrase { steps }
}

/// Copy a table value.
pub fn clone_table(t: &Table) -> (r: Table)
    ensures
        r.steps@ == t.steps@,
{
    let n = t.steps.len();
    let mut steps: Vec<TableStep> = Vec::new();
    let mut i: usize = 0;
    while i < n
        invariant
            n == t.steps@.len(),
            i <= n,
            steps@.len() == i,
            forall|j: int| 0 <= j < i ==> steps@[j] == t.steps@[j],
        decreases n - i,
    {
        steps.push(t.steps[i]);
        i = i + 1;
    }
    proof {
        assert(steps@ =~= t.steps@);
    }
    Table { steps }
}

/// Structural equality of two in-memory songs: every field, collection
/// and collection element equal, field for field.
pub open spec fn song_equiv(a: Song, b: Song) -> bool {
    &&& a.version == b.version
    &&& a.directory@ == b.directory@
    &&& a.transpose == b.transpose
    &&& a.tempo == b.tempo
    &&& a.quantize == b.quantize
    &&& a.name@ == b.name@
    &&& a.key == b.key
    &&& a.song.steps@ == b.song.steps@
    &&& a.grooves@.len() == b.grooves@.len()
    &&& forall|i: int|
        0 <= i < a.grooves@.len() ==> (#[trigger] a.grooves@[i]).number == b.grooves@[i].number
            && a.grooves@[i].steps@ == b.grooves@[i].steps@
    &&& a.phrases@.len() == b.phrases@.len()
    &&& forall|i: int|
        0 <= i < a.phrases@.len() ==> (#[trigger] a.phrases@[i]).steps@ == b.phrases@[i].steps@
    &&& a.chains@.len() == b.chains@.len()
    &&& forall|i: int|
        0 <= i < a.chains@.len() ==> (#[trigger] a.chains@[i]).steps@ == b.chains@[i].steps@
    &&& a.tables@.len() == b.tables@.len()
    &&& forall|i: int|
        0 <= i < a.tables@.len() ==> (#[trigger] a.tables@[i]).steps@ == b.tables@[i].steps@
    &&& a.instruments@.len() == b.instruments@.len()
    &&& forall|i: int|
        0 <= i < a.instruments@.len() ==> crate::instruments::inst_equiv(
            #[trigger] a.instruments@[i],
            b.instruments@[i],
        )
    &&& a.midi_settings.receive_sync == b.midi_settings.receive_sync
    &&& a.midi_settings.receive_transport == b.midi_settings.receive_transport
    &&& a.midi_settings.send_sync == b.midi_settings.send_sync
    &&& a.midi_settings.send_transport == b.midi_settings.send_transport
    &&& a.midi_settings.record_note_channel == b.midi_settings.record_note_channel
    &&& a.midi_settings.record_note_velocity == b.midi_settings.record_note_velocity
    &&& a.midi_settings.record_note_delay_kill_commands
        == b.midi_settings.record_note_delay_kill_commands
    &&& a.midi_settings.control_map_channel == b.midi_settings.control_map_channel
    &&& a.midi_settings.song_row_cue_channel == b.midi_settings.song_row_cue_channel
    &&& a.midi_settings.track_input_channel@ == b.midi_settings.track_input_channel@
    &&& a.midi_settings.track_input_intrument@ == b.midi_settings.track_input_intrument@
    &&& a.midi_settings.track_input_program_change == b.midi_settings.track_input_program_change
    &&& a.midi_settings.track_input_mode == b.midi_settings.track_input_mode
    &&& a.mixer_settings.master_volume == b.mixer_settings.master_volume
    &&& a.mixer_settings.master_limit == b.mixer_settings.master_limit
    &&& a.mixer_settings.track_volume@ == b.mixer_settings.track_volume@
    &&& a.mixer_settings.chorus_volume == b.mixer_settings.chorus_volume
    &&& a.mixer_settings.delay_volume == b.mixer_settings.delay_volume
    &&& a.mixer_settings.reverb_volume == b.mixer_settings.reverb_volume
    &&& a.mixer_settings.analog_input == b.mixer_settings.analog_input
    &&& a.mixer_settings.usb_input == b.mixer_settings.usb_input
    &&& a.mixer_settings.dj_filter == b.mixer_settings.dj_filter
    &&& a.mixer_settings.dj_peak == b.mixer_settings.dj_peak
    &&& a.mixer_settings.dj_filter_type == b.mixer_settings.dj_filter_type
    &&& a.effects_settings == b.effects_settings
    &&& a.midi_mappings@ == b.midi_mappings@
    &&& a.scales@.len() == b.scales@.len()
    &&& forall|i: int|
        0 <= i < a.scales@.len() ==> (#[trigger] a.scales@[i]).number == b.scales@[i].number
            && a.scales@[i].name@ == b.scales@[i].name@ && a.scales@[i].notes@
            == b.scales@[i].notes@
    &&& a.eqs@ == b.eqs@
}

/// Parse determinism: the buffer pins every field, so two songs matching
/// the same buffer are structurally equal.  Together with the round-trip
/// law this closes the loop: whatever a re-parse of a serialized song
/// returns is the serialized song, field for field.
pub proof fn lemma_song_matches_unique(b: Seq<u8>, s1: Song, s2: Song)
    requires
        song_matches(b, s1),
        song_matches(b, s2),
    ensures
        song_equiv(s1, s2),
{
    assert forall|i: int| 0 <= i < 128 implies crate::instruments::inst_equiv(
        #[trigger] s1.instruments@[i],
        s2.instruments@[i],
    ) by {
        crate::instruments::lemma_instrument_matches_unique(
            b,
            0x13A3E + 215 * i,
            s1.version,
            i as u8,
            s1.instruments@[i],
            s2.instruments@[i],
        );
    }
    assert forall|i: int| 0 <= i < 32 implies (#[trigger] s1.grooves@[i]).steps@
        == s2.grooves@[i].steps@ by {
        assert(groove_matches(b, 0xEE + 16 * i, i as u8, s1.grooves@[i]));
        assert(groove_matches(b, 0xEE + 16 * i, i as u8, s2.grooves@[i]));
    }
    assert forall|i: int| 0 <= i < 255 implies (#[trigger] s1.phrases@[i]).steps@
        == s2.phrases@[i].steps@ by {
        assert(phrase_matches(b, 0xAEE + 144 * i, s1.phrases@[i].steps@));
        assert(phrase_matches(b, 0xAEE + 144 * i, s2.phrases@[i].steps@));
        assert forall|k: int| 0 <= k < 16 implies #[trigger] s1.phrases@[i].steps@[k]
            == s2.phrases@[i].steps@[k] by {
            assert(step_matches(b, 0xAEE + 144 * i + 9 * k, s1.phrases@[i].steps@[k]));
            assert(step_matches(b, 0xAEE + 144 * i + 9 * k, s2.phrases@[i].steps@[k]));
        }
        assert(s1.phrases@[i].steps@ =~= s2.phrases@[i].steps@);
    }
    assert forall|i: int| 0 <= i < 255 implies (#[trigger] s1.chains@[i]).steps@
        == s2.chains@[i].steps@ by {
        assert(chain_matches(b, 0x9A5E + 32 * i, s1.chains@[i].steps@));
        assert(chain_matches(b, 0x9A5E + 32 * i, s2.chains@[i].steps@));
        assert forall|k: int| 0 <= k < 16 implies #[trigger] s1.chains@[i].steps@[k]
            == s2.chains@[i].steps@[k] by {
            assert(chain_step_matches(b, 0x9A5E + 32 * i + 2 * k, s1.chains@[i].steps@[k]));
            assert(chain_step_matches(b, 0x9A5E + 32 * i + 2 * k, s2.chains@[i].steps@[k]));
        }
        assert(s1.chains@[i].steps@ =~= s2.chains@[i].steps@);
    }
    assert forall|i: int| 0 <= i < 256 implies (#[trigger] s1.tables@[i]).steps@
        == s2.tables@[i].steps@ by {
        assert(table_matches(b, 0xBA3E + 128 * i, s1.tables@[i].steps@));
        assert(table_matches(b, 0xBA3E + 128 * i, s2.tables@[i].steps@));
        assert forall|k: int| 0 <= k < 16 implies #[trigger] s1.tables@[i].steps@[k]
            == s2.tables@[i].steps@[k] by {
            assert(table_step_matches(b, 0xBA3E + 128 * i + 8 * k, s1.tables@[i].steps@[k]));
            assert(table_step_matches(b, 0xBA3E + 128 * i + 8 * k, s2.tables@[i].steps@[k]));
        }
        assert(s1.tables@[i].steps@ =~= s2.tables@[i].steps@);
    }
    assert(s1.midi_mappings@ =~= s2.midi_mappings@) by {
        assert forall|i: int| 0 <= i < 128 implies #[trigger] s1.midi_mappings@[i]
            == s2.midi_mappings@[i] by {
            assert(midi_mapping_matches(b, 0x1A5FE + 7 * i, s1.midi_mappings@[i]));
            assert(midi_mapping_matches(b, 0x1A5FE + 7 * i, s2.midi_mappings@[i]));
        }
    }
    assert forall|i: int| 0 <= i < 16 implies (#[trigger] s1.scales@[i]).number
        == s2.scales@[i].number && s1.scales@[i].name@ == s2.scales@[i].name@
        && s1.scales@[i].notes@ == s2.scales@[i].notes@ by {
        if s1.version.spec_at_least(2, 5) {
            assert(crate::scale::scale_matches(b, 0x1AA7E + 42 * i, i as u8, s1.scales@[i]));
            assert(crate::scale::scale_matches(b, 0x1AA7E + 42 * i, i as u8, s2.scales@[i]));
            assert forall|k: int| 0 <= k < 12 implies #[trigger] s1.scales@[i].notes@[k]
                == s2.scales@[i].notes@[k] by {}
            assert(s1.scales@[i].notes@ =~= s2.scales@[i].notes@);
        } else {
            assert(scale_is_default(s1.scales@[i], i as u8));
            assert(scale_is_default(s2.scales@[i], i as u8));
            assert forall|k: int| 0 <= k < 12 implies #[trigger] s1.scales@[i].notes@[k]
                == s2.scales@[i].notes@[k] by {}
            assert(s1.scales@[i].notes@ =~= s2.scales@[i].notes@);
        }
    }
    assert(s1.eqs@ =~= s2.eqs@) by {
        assert(s1.eqs@.len() == s2.eqs@.len());
        assert forall|i: int| 0 <= i < s1.eqs@.len() implies #[trigger] s1.eqs@[i]
            == s2.eqs@[i] by {
            assert(equ_matches(b, 0x1AD5E + 18 * i, s1.eqs@[i]));
            assert(equ_matches(b, 0x1AD5E + 18 * i, s2.eqs@[i]));
        }
    }
}

/// Round trip: a song parsed from a buffer, serialized back into that
/// buffer, re-parses to the same song, field for field — version,
/// instruments, phrases, chains, tables, grooves, settings and EQs alike.
/// `b1` is the buffer the song was parsed from, and `b2` the buffer
/// `Song::write` produced from it.
pub proof fn lemma_song_round_trip(b1: Seq<u8>, b2: Seq<u8>, s: Song)
    requires
        song_matches(b1, s),
        song_wf(s),
        song_len_ok(b1),
        s.version.spec_at_least(4, 0),
        song_patterns_written(b1, b2, s),
    ensures
        song_matches(b2, s),
        song_len_ok(b2),
        song_valid(b2, s.version),
{
    // Bytes before the pattern block, between the instrument and EQ
    // sections, and after the EQs are untouched.
    assert forall|k: int| 0 <= k < 0x2EE implies #[trigger] b2[k] == b1[k] by {}
    assert forall|k: int| 0x1A5BE <= k < b1.len() && !(0x1AD5E <= k < 0x1AD5E + 18
        * s.eqs@.len()) implies #[trigger] b2[k] == b1[k] by {}
    assert(version_at(b2, 0) == version_at(b1, 0)) by {
        assert(b2[10] == b1[10]);
        assert(b2[11] == b1[11]);
    }
    assert forall|k: int| 14 <= k < 142 implies #[trigger] b2[k] == b1[k] by {
        assert(b2[k] == b1[k]);
    }
    crate::reader::lemma_string_at_frame(b1, b2, 14, 128);
    assert(b2[142] == b1[142]);
    assert(b2[143] == b1[143]);
    assert(b2[144] == b1[144]);
    assert(b2[145] == b1[145]);
    assert(b2[146] == b1[146]);
    assert(b2[147] == b1[147]);
    assert forall|k: int| 148 <= k < 160 implies #[trigger] b2[k] == b1[k] by {
        assert(b2[k] == b1[k]);
    }
    crate::reader::lemma_string_at_frame(b1, b2, 148, 12);
    assert forall|k: int| 160 <= k < 187 implies #[trigger] b2[k] == b1[k] by {
        assert(b2[k] == b1[k]);
    }
    crate::settings::lemma_midi_settings_frame(b1, b2, 160, s.midi_settings);
    assert(b2[187] == b1[187]);
    assert forall|k: int| 206 <= k < 238 implies #[trigger] b2[k] == b1[k] by {
        assert(b2[k] == b1[k]);
    }
    crate::settings::lemma_mixer_settings_frame(b1, b2, 206, s.mixer_settings);
    assert forall|i: int|
        0 <= i < 32 implies groove_matches(b2, 0xEE + 16 * i, i as u8, #[trigger] s.grooves@[i]) by {
        let q = 0xEE + 16 * i;
        assert(b2.subrange(q, q + 16) =~= b1.subrange(q, q + 16)) by {
            assert forall|j: int| 0 <= j < 16 implies #[trigger] b2.subrange(q, q + 16)[j]
                == b1.subrange(q, q + 16)[j] by {
                assert(b2[q + j] == b1[q + j]);
            }
        }
    }
    assert forall|k: int| 0x1A5C1 <= k < 0x1A5C1 + 21 implies #[trigger] b2[k] == b1[k] by {
        assert(b2[k] == b1[k]);
    }
    crate::settings::lemma_effects_settings_frame(b1, b2, 0x1A5C1, s.version, s.effects_settings);
    assert forall|i: int|
        0 <= i < 128 implies midi_mapping_matches(
            b2,
            0x1A5FE + 7 * i,
            #[trigger] s.midi_mappings@[i],
        ) by {
        let q = 0x1A5FE + 7 * i;
        assert forall|k: int| q <= k < q + 7 implies #[trigger] b2[k] == b1[k] by {
            assert(b2[k] == b1[k]);
        }
        crate::settings::lemma_midi_mapping_frame(b1, b2, q, s.midi_mappings@[i]);
    }
    assert forall|i: int|
        0 <= i < 16 implies scale_matches(b2, 0x1AA7E + 42 * i, i as u8, #[trigger] s.scales@[i]) by {
        let q = 0x1AA7E + 42 * i;
        assert forall|k: int| q <= k < q + 42 implies #[trigger] b2[k] == b1[k] by {
            assert(b2[k] == b1[k]);
        }
        crate::scale::lemma_scale_frame(b1, b2, q, i as u8, s.scales@[i]);
    }
    // Each variant's record of `song_matches` pins the stored slot number,
    // so the rewritten record parses under the slot's own number; an empty
    // slot's record ignores the number entirely.
    assert forall|i: int|
        0 <= i < 128 implies instrument_matches(
            b2,
            0x13A3E + 215 * i,
            s.version,
            i as u8,
            #[trigger] s.instruments@[i],
        ) by {
        assert(instrument_matches(b1, 0x13A3E + 215 * i, s.version, i as u8, s.instruments@[i]));
        assert(instrument_matches(
            b2,
            0x13A3E + 215 * i,
            s.version,
            s.instruments@[i].spec_number(),
            s.instruments@[i],
        ));
    }
    assert forall|i: int| 0 <= i < 128 implies #[trigger] instrument_valid(
        b2,
        0x13A3E + 215 * i,
        s.version,
    ) by {
        crate::instruments::lemma_instrument_matches_valid(
            b2,
            0x13A3E + 215 * i,
            s.version,
            i as u8,
            s.instruments@[i],
        );
    }
}

} // verus!

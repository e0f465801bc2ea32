//! The macro synthesizer instrument kind.

use crate::instruments::common::{
    synth_params2_matches, synth_params2_valid, synth_params_matches, synth_params_valid,
    synth_params_wf, SynthParams, TranspEq,
};
use crate::instruments::name_wf;
use crate::reader::{string_at, M8Result, ParseError, Reader};
use crate::version::Version;
use crate::writer::{preserved_outside, Writer};
use vstd::prelude::*;

verus! {

broadcast use crate::reader::lemma_reader_pos_nonneg, crate::reader::lemma_reader_data_bound, crate::writer::lemma_writer_pos_nonneg, crate::writer::lemma_writer_data_bound;

/// Oscillator mode of the macro synthesizer.
#[derive(PartialEq, Eq, Structural, Clone, Copy, Debug)]
#[allow(non_camel_case_types)]
pub enum MacroSynthOsc {
    CSAW,
    MORPH,
    SAW_SQUARE,
    SINE_TRIANGLE,
    BUZZ,
    SQUARE_SUB,
    SAW_SUB,
    SQUARE_SYNC,
    SAW_SYNC,
    TRIPLE_SAW,
    TRIPLE_SQUARE,
    TRIPLE_TRIANGLE,
    TRIPLE_SIN,
    TRIPLE_RNG,
    SAW_SWARM,
    SAW_COMB,
    TOY,
    DIGITAL_FILTER_LP,
    DIGITAL_FILTER_PK,
    DIGITAL_FILTER_BP,
    DIGITAL_FILTER_HP,
    VOSIM,
    VOWEL,
    VOWEL_FOF,
    HARMONICS,
    FM,
    FEEDBACK_FM,
    CHAOTIC_FEEDBACK_FM,
    PLUCKED,
    BOWED,
    BLOWN,
    FLUTED,
    STRUCK_BELL,
    STRUCK_DRUM,
    KICK,
    CYMBAL,
    SNARE,
    WAVETABLES,
    WAVE_MAP,
    WAV_LINE,
    WAV_PARAPHONIC,
    FILTERED_NOISE,
    TWIN_PEAKS_NOISE,
    CLOCKED_NOISE,
    GRANULAR_CLOUD,
    PARTICLE_NOISE,
    DIGITAL_MOD,
    MORSE_NOISE,
}

impl MacroSynthOsc {
    /// The on-disk code of this value.
    pub open spec fn spec_code(self) -> u8 {
        match self {
            MacroSynthOsc::CSAW => 0,
            MacroSynthOsc::MORPH => 1,
            MacroSynthOsc::SAW_SQUARE => 2,
            MacroSynthOsc::SINE_TRIANGLE => 3,
            MacroSynthOsc::BUZZ => 4,
            MacroSynthOsc::SQUARE_SUB => 5,
            MacroSynthOsc::SAW_SUB => 6,
            MacroSynthOsc::SQUARE_SYNC => 7,
            MacroSynthOsc::SAW_SYNC => 8,
            MacroSynthOsc::TRIPLE_SAW => 9,
            MacroSynthOsc::TRIPLE_SQUARE => 10,
            MacroSynthOsc::TRIPLE_TRIANGLE => 11,
            MacroSynthOsc::TRIPLE_SIN => 12,
            MacroSynthOsc::TRIPLE_RNG => 13,
            MacroSynthOsc::SAW_SWARM => 14,
            MacroSynthOsc::SAW_COMB => 15,
            MacroSynthOsc::TOY => 16,
            MacroSynthOsc::DIGITAL_FILTER_LP => 17,
            MacroSynthOsc::DIGITAL_FILTER_PK => 18,
            MacroSynthOsc::DIGITAL_FILTER_BP => 19,
            MacroSynthOsc::DIGITAL_FILTER_HP => 20,
            MacroSynthOsc::VOSIM => 21,
            MacroSynthOsc::VOWEL => 22,
            MacroSynthOsc::VOWEL_FOF => 23,
            MacroSynthOsc::HARMONICS => 24,
            MacroSynthOsc::FM => 25,
            MacroSynthOsc::FEEDBACK_FM => 26,
            MacroSynthOsc::CHAOTIC_FEEDBACK_FM => 27,
            MacroSynthOsc::PLUCKED => 28,
            MacroSynthOsc::BOWED => 29,
            MacroSynthOsc::BLOWN => 30,
            MacroSynthOsc::FLUTED => 31,
            MacroSynthOsc::STRUCK_BELL => 32,
            MacroSynthOsc::STRUCK_DRUM => 33,
            MacroSynthOsc::KICK => 34,
            MacroSynthOsc::CYMBAL => 35,
            MacroSynthOsc::SNARE => 36,
            MacroSynthOsc::WAVETABLES => 37,
            MacroSynthOsc::WAVE_MAP => 38,
            MacroSynthOsc::WAV_LINE => 39,
            MacroSynthOsc::WAV_PARAPHONIC => 40,
            MacroSynthOsc::FILTERED_NOISE => 41,
            MacroSynthOsc::TWIN_PEAKS_NOISE => 42,
            MacroSynthOsc::CLOCKED_NOISE => 43,
            MacroSynthOsc::GRANULAR_CLOUD => 44,
            MacroSynthOsc::PARTICLE_NOISE => 45,
            MacroSynthOsc::DIGITAL_MOD => 46,
            MacroSynthOsc::MORSE_NOISE => 47,
        }
    }

    /// The on-disk code of this value.
    #[verifier::when_used_as_spec(spec_code)]
    pub fn code(self) -> (r: u8)
        ensures
            r == self.spec_code(),
    {
        match self {
            MacroSynthOsc::CSAW => 0,
            MacroSynthOsc::MORPH => 1,
            MacroSynthOsc::SAW_SQUARE => 2,
            MacroSynthOsc::SINE_TRIANGLE => 3,
            MacroSynthOsc::BUZZ => 4,
            MacroSynthOsc::SQUARE_SUB => 5,
            MacroSynthOsc::SAW_SUB => 6,
            MacroSynthOsc::SQUARE_SYNC => 7,
            MacroSynthOsc::SAW_SYNC => 8,
            MacroSynthOsc::TRIPLE_SAW => 9,
            MacroSynthOsc::TRIPLE_SQUARE => 10,
            MacroSynthOsc::TRIPLE_TRIANGLE => 11,
            MacroSynthOsc::TRIPLE_SIN => 12,
            MacroSynthOsc::TRIPLE_RNG => 13,
            MacroSynthOsc::SAW_SWARM => 14,
            MacroSynthOsc::SAW_COMB => 15,
            MacroSynthOsc::TOY => 16,
            MacroSynthOsc::DIGITAL_FILTER_LP => 17,
            MacroSynthOsc::DIGITAL_FILTER_PK => 18,
            MacroSynthOsc::DIGITAL_FILTER_BP => 19,
            MacroSynthOsc::DIGITAL_FILTER_HP => 20,
            MacroSynthOsc::VOSIM => 21,
            MacroSynthOsc::VOWEL => 22,
            MacroSynthOsc::VOWEL_FOF => 23,
            MacroSynthOsc::HARMONICS => 24,
            MacroSynthOsc::FM => 25,
            MacroSynthOsc::FEEDBACK_FM => 26,
            MacroSynthOsc::CHAOTIC_FEEDBACK_FM => 27,
            MacroSynthOsc::PLUCKED => 28,
            MacroSynthOsc::BOWED => 29,
            MacroSynthOsc::BLOWN => 30,
            MacroSynthOsc::FLUTED => 31,
            MacroSynthOsc::STRUCK_BELL => 32,
            MacroSynthOsc::STRUCK_DRUM => 33,
            MacroSynthOsc::KICK => 34,
            MacroSynthOsc::CYMBAL => 35,
            MacroSynthOsc::SNARE => 36,
            MacroSynthOsc::WAVETABLES => 37,
            MacroSynthOsc::WAVE_MAP => 38,
            MacroSynthOsc::WAV_LINE => 39,
            MacroSynthOsc::WAV_PARAPHONIC => 40,
            MacroSynthOsc::FILTERED_NOISE => 41,
            MacroSynthOsc::TWIN_PEAKS_NOISE => 42,
            MacroSynthOsc::CLOCKED_NOISE => 43,
            MacroSynthOsc::GRANULAR_CLOUD => 44,
            MacroSynthOsc::PARTICLE_NOISE => 45,
            MacroSynthOsc::DIGITAL_MOD => 46,
            MacroSynthOsc::MORSE_NOISE => 47,
        }
    }

    /// The value a code denotes, if any.
    pub open spec fn spec_from_code(v: u8) -> Option<MacroSynthOsc> {
        match v {
            0u8 => Some(MacroSynthOsc::CSAW),
            1u8 => Some(MacroSynthOsc::MORPH),
            2u8 => Some(MacroSynthOsc::SAW_SQUARE),
            3u8 => Some(MacroSynthOsc::SINE_TRIANGLE),
            4u8 => Some(MacroSynthOsc::BUZZ),
            5u8 => Some(MacroSynthOsc::SQUARE_SUB),
            6u8 => Some(MacroSynthOsc::SAW_SUB),
            7u8 => Some(MacroSynthOsc::SQUARE_SYNC),
            8u8 => Some(MacroSynthOsc::SAW_SYNC),
            9u8 => Some(MacroSynthOsc::TRIPLE_SAW),
            10u8 => Some(MacroSynthOsc::TRIPLE_SQUARE),
            11u8 => Some(MacroSynthOsc::TRIPLE_TRIANGLE),
            12u8 => Some(MacroSynthOsc::TRIPLE_SIN),
            13u8 => Some(MacroSynthOsc::TRIPLE_RNG),
            14u8 => Some(MacroSynthOsc::SAW_SWARM),
            15u8 => Some(MacroSynthOsc::SAW_COMB),
            16u8 => Some(MacroSynthOsc::TOY),
            17u8 => Some(MacroSynthOsc::DIGITAL_FILTER_LP),
            18u8 => Some(MacroSynthOsc::DIGITAL_FILTER_PK),
            19u8 => Some(MacroSynthOsc::DIGITAL_FILTER_BP),
            20u8 => Some(MacroSynthOsc::DIGITAL_FILTER_HP),
            21u8 => Some(MacroSynthOsc::VOSIM),
            22u8 => Some(MacroSynthOsc::VOWEL),
            23u8 => Some(MacroSynthOsc::VOWEL_FOF),
            24u8 => Some(MacroSynthOsc::HARMONICS),
            25u8 => Some(MacroSynthOsc::FM),
            26u8 => Some(MacroSynthOsc::FEEDBACK_FM),
            27u8 => Some(MacroSynthOsc::CHAOTIC_FEEDBACK_FM),
            28u8 => Some(MacroSynthOsc::PLUCKED),
            29u8 => Some(MacroSynthOsc::BOWED),
            30u8 => Some(MacroSynthOsc::BLOWN),
            31u8 => Some(MacroSynthOsc::FLUTED),
            32u8 => Some(MacroSynthOsc::STRUCK_BELL),
            33u8 => Some(MacroSynthOsc::STRUCK_DRUM),
            34u8 => Some(MacroSynthOsc::KICK),
            35u8 => Some(MacroSynthOsc::CYMBAL),
            36u8 => Some(MacroSynthOsc::SNARE),
            37u8 => Some(MacroSynthOsc::WAVETABLES),
            38u8 => Some(MacroSynthOsc::WAVE_MAP),
            39u8 => Some(MacroSynthOsc::WAV_LINE),
            40u8 => Some(MacroSynthOsc::WAV_PARAPHONIC),
            41u8 => Some(MacroSynthOsc::FILTERED_NOISE),
            42u8 => Some(MacroSynthOsc::TWIN_PEAKS_NOISE),
            43u8 => Some(MacroSynthOsc::CLOCKED_NOISE),
            44u8 => Some(MacroSynthOsc::GRANULAR_CLOUD),
            45u8 => Some(MacroSynthOsc::PARTICLE_NOISE),
            46u8 => Some(MacroSynthOsc::DIGITAL_MOD),
            47u8 => Some(MacroSynthOsc::MORSE_NOISE),
            _ => None,
        }
    }

    /// The value a code denotes, if any.
    #[verifier::when_used_as_spec(spec_from_code)]
    pub fn from_code(v: u8) -> (r: Option<MacroSynthOsc>)
        ensures
            r == Self::spec_from_code(v),
    {
        match v {
            0u8 => Some(MacroSynthOsc::CSAW),
            1u8 => Some(MacroSynthOsc::MORPH),
            2u8 => Some(MacroSynthOsc::SAW_SQUARE),
            3u8 => Some(MacroSynthOsc::SINE_TRIANGLE),
            4u8 => Some(MacroSynthOsc::BUZZ),
            5u8 => Some(MacroSynthOsc::SQUARE_SUB),
            6u8 => Some(MacroSynthOsc::SAW_SUB),
            7u8 => Some(MacroSynthOsc::SQUARE_SYNC),
            8u8 => Some(MacroSynthOsc::SAW_SYNC),
            9u8 => Some(MacroSynthOsc::TRIPLE_SAW),
            10u8 => Some(MacroSynthOsc::TRIPLE_SQUARE),
            11u8 => Some(MacroSynthOsc::TRIPLE_TRIANGLE),
            12u8 => Some(MacroSynthOsc::TRIPLE_SIN),
            13u8 => Some(MacroSynthOsc::TRIPLE_RNG),
            14u8 => Some(MacroSynthOsc::SAW_SWARM),
            15u8 => Some(MacroSynthOsc::SAW_COMB),
            16u8 => Some(MacroSynthOsc::TOY),
            17u8 => Some(MacroSynthOsc::DIGITAL_FILTER_LP),
            18u8 => Some(MacroSynthOsc::DIGITAL_FILTER_PK),
            19u8 => Some(MacroSynthOsc::DIGITAL_FILTER_BP),
            20u8 => Some(MacroSynthOsc::DIGITAL_FILTER_HP),
            21u8 => Some(MacroSynthOsc::VOSIM),
            22u8 => Some(MacroSynthOsc::VOWEL),
            23u8 => Some(MacroSynthOsc::VOWEL_FOF),
            24u8 => Some(MacroSynthOsc::HARMONICS),
            25u8 => Some(MacroSynthOsc::FM),
            26u8 => Some(MacroSynthOsc::FEEDBACK_FM),
            27u8 => Some(MacroSynthOsc::CHAOTIC_FEEDBACK_FM),
            28u8 => Some(MacroSynthOsc::PLUCKED),
            29u8 => Some(MacroSynthOsc::BOWED),
            30u8 => Some(MacroSynthOsc::BLOWN),
            31u8 => Some(MacroSynthOsc::FLUTED),
            32u8 => Some(MacroSynthOsc::STRUCK_BELL),
            33u8 => Some(MacroSynthOsc::STRUCK_DRUM),
            34u8 => Some(MacroSynthOsc::KICK),
            35u8 => Some(MacroSynthOsc::CYMBAL),
            36u8 => Some(MacroSynthOsc::SNARE),
            37u8 => Some(MacroSynthOsc::WAVETABLES),
            38u8 => Some(MacroSynthOsc::WAVE_MAP),
            39u8 => Some(MacroSynthOsc::WAV_LINE),
            40u8 => Some(MacroSynthOsc::WAV_PARAPHONIC),
            41u8 => Some(MacroSynthOsc::FILTERED_NOISE),
            42u8 => Some(MacroSynthOsc::TWIN_PEAKS_NOISE),
            43u8 => Some(MacroSynthOsc::CLOCKED_NOISE),
            44u8 => Some(MacroSynthOsc::GRANULAR_CLOUD),
            45u8 => Some(MacroSynthOsc::PARTICLE_NOISE),
            46u8 => Some(MacroSynthOsc::DIGITAL_MOD),
            47u8 => Some(MacroSynthOsc::MORSE_NOISE),
            _ => None,
        }
    }
}

/// The macro synthesizer: oscillator mode and timbre parameters over the
/// shared synth-parameter block.
#[derive(PartialEq, Debug, Clone)]
pub struct MacroSynth {
    pub number: u8,
    pub name: Vec<u8>,
    pub transpose: bool,
    pub table_tick: u8,
    pub synth_params: SynthParams,
    pub shape: MacroSynthOsc,
    pub timbre: u8,
    pub color: u8,
    pub degrade: u8,
    pub redux: u8,
}

/// Gap between the fixed synth-parameter bytes and the modulators for this
/// kind.
pub const MACROSYNTH_MOD_OFFSET: usize = 30;

/// The record body at `h` (the byte after the kind byte) holds exactly this
/// instrument, parsed as slot `number` under `ver`.
pub open spec fn macro_synth_matches(b: Seq<u8>, h: int, ver: Version, number: u8, ms: MacroSynth) -> bool {
    &&& ms.number == number
    &&& ms.name@ == string_at(b, h, 12)
    &&& ms.transpose == ((b[h + 12] & 1) != 0)
    &&& ms.table_tick == b[h + 13]
    &&& ms.synth_params.volume == b[h + 14]
    &&& ms.synth_params.pitch == b[h + 15]
    &&& ms.synth_params.fine_tune == b[h + 16]
    &&& MacroSynthOsc::spec_from_code(b[h + 17]) == Some(ms.shape)
    &&& ms.timbre == b[h + 18]
    &&& ms.color == b[h + 19]
    &&& ms.degrade == b[h + 20]
    &&& ms.redux == b[h + 21]
    &&& if ver.spec_at_least(3, 0) {
        synth_params_matches(b, h + 22, ver, b[h + 12] >> 1, 30, ms.synth_params)
    } else {
        synth_params2_matches(b, h + 22, ms.synth_params)
    }
}

/// The record body at `h` decodes to a macro synthesizer under `ver`.
pub open spec fn macro_synth_valid(b: Seq<u8>, h: int, ver: Version) -> bool {
    &&& MacroSynthOsc::spec_from_code(b[h + 17]) is Some
    &&& if ver.spec_at_least(3, 0) {
        synth_params_valid(b, h + 22, 30)
    } else {
        synth_params2_valid(b, h + 22)
    }
}

/// This instrument can be serialized under `ver`.
pub open spec fn macro_synth_wf(ms: MacroSynth, ver: Version) -> bool {
    &&& name_wf(ms.name@, 12)
    &&& synth_params_wf(ms.synth_params)
    &&& (ver.spec_at_least(4, 1) || ms.synth_params.associated_eq < 128)
}

impl MacroSynth {
    /// Parse the record body, the kind byte having been consumed.
    pub fn from_reader(reader: &mut Reader, number: u8, version: Version) -> (r: M8Result<Self>)
        requires
            old(reader).spec_pos() + 214 <= old(reader).data().len(),
        ensures
            final(reader).data() == old(reader).data(),
            r is Ok <==> macro_synth_valid(old(reader).data(), old(reader).spec_pos(), version),
            r matches Ok(ms) ==> macro_synth_matches(
                old(reader).data(),
                old(reader).spec_pos(),
                version,
                number,
                ms,
            ),
            r matches Ok(ms) ==> version.spec_at_least(4, 0) ==> macro_synth_wf(ms, version),
    {
        let name = reader.read_string(12);
        let transp_eq = TranspEq::from_version(version, reader.read());
        let table_tick = reader.read();
        let volume = reader.read();
        let pitch = reader.read();
        let fine_tune = reader.read();
        let shape_code = reader.read();
        let timbre = reader.read();
        let color = reader.read();
        let degrade = reader.read();
        let redux = reader.read();
        let synth_params = if version.at_least(3, 0) {
            match SynthParams::from_reader3(
                version,
                reader,
                volume,
                pitch,
                fine_tune,
                transp_eq.eq,
                MACROSYNTH_MOD_OFFSET,
            ) {
                Ok(sp) => sp,
                Err(e) => {
                    return Err(e);
                },
            }
        } else {
            match SynthParams::from_reader2(reader, volume, pitch, fine_tune) {
                Ok(sp) => sp,
                Err(e) => {
                    return Err(e);
                },
            }
        };
        let shape = match MacroSynthOsc::from_code(shape_code) {
            Some(s) => s,
            None => {
                return Err(ParseError("Invalid macrosynth shape".to_string()));
            },
        };
        Ok(MacroSynth {
            number,
            name,
            transpose: transp_eq.transpose,
            table_tick,
            synth_params,
            shape,
            timbre,
            color,
            degrade,
            redux,
        })
    }

    /// Serialize the record body, the kind byte having been written.
    pub fn write(&self, ver: Version, w: &mut Writer)
        requires
            macro_synth_wf(*self, ver),
            ver.spec_at_least(4, 0),
            old(w).spec_pos() + 214 <= old(w).data().len(),
        ensures
            final(w).data().len() == old(w).data().len(),
            preserved_outside(
                old(w).data(),
                final(w).data(),
                old(w).spec_pos(),
                old(w).spec_pos() + 214,
            ),
            macro_synth_matches(final(w).data(), old(w).spec_pos(), ver, self.number, *self),
            macro_synth_valid(final(w).data(), old(w).spec_pos(), ver),
    {
        let ghost h = old(w).spec_pos();
        w.write_string(&self.name, 12);
        let te = TranspEq::from(ver, self.transpose, self.synth_params.associated_eq);
        w.write(te.to_byte());
        w.write(self.table_tick);
        w.write(self.synth_params.volume);
        w.write(self.synth_params.pitch);
        w.write(self.synth_params.fine_tune);
        w.write(self.shape.code());
        w.write(self.timbre);
        w.write(self.color);
        w.write(self.degrade);
        w.write(self.redux);
        self.synth_params.write(ver, w, MACROSYNTH_MOD_OFFSET);
        proof {
            let b = final(w).data();
            assert forall|j: int| 0 <= j < self.name@.len() implies b[h + j] == self.name@[j] by {}
            if self.name@.len() < 12 {
                assert(b[h + self.name@.len()] == 0u8);
            }
            crate::reader::lemma_string_at_canonical(b, h, 12, self.name@);
        }
    }
}

/// A matching record still matches after writes that left its bytes alone.
pub proof fn lemma_macro_synth_frame(
    b1: Seq<u8>,
    b2: Seq<u8>,
    h: int,
    ver: Version,
    number: u8,
    ms: MacroSynth,
)
    requires
        0 <= h,
        h + 214 <= b1.len(),
        b2.len() == b1.len(),
        ver.spec_at_least(3, 0),
        forall|k: int| h <= k < h + 214 ==> #[trigger] b2[k] == b1[k],
        macro_synth_matches(b1, h, ver, number, ms),
    ensures
        macro_synth_matches(b2, h, ver, number, ms),
{
    crate::reader::lemma_string_at_frame(b1, b2, h, 12);
    assert(b2[h + 12] == b1[h + 12]);
    assert(b2[h + 13] == b1[h + 13]);
    assert(b2[h + 14] == b1[h + 14]);
    assert(b2[h + 15] == b1[h + 15]);
    assert(b2[h + 16] == b1[h + 16]);
    assert(b2[h + 17] == b1[h + 17]);
    assert(b2[h + 18] == b1[h + 18]);
    assert(b2[h + 19] == b1[h + 19]);
    assert(b2[h + 20] == b1[h + 20]);
    assert(b2[h + 21] == b1[h + 21]);
    assert forall|k: int| h + 22 <= k < h + 22 + 10 + 30 + 24 implies #[trigger] b2[k]
        == b1[k] by {
        assert(b2[k] == b1[k]);
    }
    crate::instruments::common::lemma_synth_params_frame(
        b1,
        b2,
        h + 22,
        ver,
        b1[h + 12] >> 1,
        30,
        ms.synth_params,
    );
}

} // verus!

//! The wavetable synthesizer instrument kind.

use crate::instruments::common::{
    synth_params2_matches, synth_params2_valid, synth_params_matches, synth_params_valid,
    synth_params_wf, SynthParams, TranspEq,
};
use crate::instruments::name_wf;
use crate::reader::{string_at, M8Result, ParseError, Reader};
use crate::version::Version;
use crate::writer::{preserved_outside, Writer};
use vstd::prelude::*;

verus! {

broadcast use crate::reader::lemma_reader_pos_nonneg, crate::reader::lemma_reader_data_bound, crate::writer::lemma_writer_pos_nonneg, crate::writer::lemma_writer_data_bound;

/// Oscillator wave shape of the wavetable synthesizer.
#[derive(PartialEq, Eq, Structural, Clone, Copy, Debug)]
#[allow(non_camel_case_types)]
pub enum WavShape {
    PULSE12,
    PULSE25,
    PULSE50,
    PULSE75,
    SAW,
    TRIANGLE,
    SINE,
    NOISE_PITCHED,
    NOISE,
    WT_CRUSH,
    WT_FOLDING,
    WT_FREQ,
    WT_FUZZY,
    WT_GHOST,
    WT_GRAPHIC,
    WT_LFOPLAY,
    WT_LIQUID,
    WT_MORPHING,
    WT_MYSTIC,
    WT_STICKY,
    WT_TIDAL,
    WT_TIDY,
    WT_TUBE,
    WT_UMBRELLA,
    WT_UNWIND,
    WT_VIRAL,
    WT_WAVES,
    WT_DRIP,
    WT_FROGGY,
    WT_INSONIC,
    WT_RADIUS,
    WT_SCRATCH,
    WT_SMOOTH,
    WT_WOBBLE,
    WT_ASIMMTRY,
    WT_BLEEN,
    WT_FRACTAL,
    WT_GENTLE,
    WT_HARMONIC,
    WT_HYPNOTIC,
    WT_ITERATIV,
    WT_MICROWAV,
    WT_PLAITS01,
    WT_PLAITS02,
    WT_RISEFALL,
    WT_TONAL,
    WT_TWINE,
    WT_ALIEN,
    WT_CYBERNET,
    WT_DISORDR,
    WT_FORMANT,
    WT_HYPER,
    WT_JAGGED,
    WT_MIXED,
    WT_MULTIPLY,
    WT_NOWHERE,
    WT_PINBALL,
    WT_RINGS,
    WT_SHIMMER,
    WT_SPECTRAL,
    WT_SPOOKY,
    WT_TRANSFRM,
    WT_TWISTED,
    WT_VOCAL,
    WT_WASHED,
    WT_WONDER,
    WT_WOWEE,
    WT_ZAP,
    WT_BRAIDS,
    WT_VOXSYNTH,
}

impl WavShape {
    /// The on-disk code of this value.
    pub open spec fn spec_code(self) -> u8 {
        match self {
            WavShape::PULSE12 => 0,
            WavShape::PULSE25 => 1,
            WavShape::PULSE50 => 2,
            WavShape::PULSE75 => 3,
            WavShape::SAW => 4,
            WavShape::TRIANGLE => 5,
            WavShape::SINE => 6,
            WavShape::NOISE_PITCHED => 7,
            WavShape::NOISE => 8,
            WavShape::WT_CRUSH => 9,
            WavShape::WT_FOLDING => 10,
            WavShape::WT_FREQ => 11,
            WavShape::WT_FUZZY => 12,
            WavShape::WT_GHOST => 13,
            WavShape::WT_GRAPHIC => 14,
            WavShape::WT_LFOPLAY => 15,
            WavShape::WT_LIQUID => 16,
            WavShape::WT_MORPHING => 17,
            WavShape::WT_MYSTIC => 18,
            WavShape::WT_STICKY => 19,
            WavShape::WT_TIDAL => 20,
            WavShape::WT_TIDY => 21,
            WavShape::WT_TUBE => 22,
            WavShape::WT_UMBRELLA => 23,
            WavShape::WT_UNWIND => 24,
            WavShape::WT_VIRAL => 25,
            WavShape::WT_WAVES => 26,
            WavShape::WT_DRIP => 27,
            WavShape::WT_FROGGY => 28,
            WavShape::WT_INSONIC => 29,
            WavShape::WT_RADIUS => 30,
            WavShape::WT_SCRATCH => 31,
            WavShape::WT_SMOOTH => 32,
            WavShape::WT_WOBBLE => 33,
            WavShape::WT_ASIMMTRY => 34,
            WavShape::WT_BLEEN => 35,
            WavShape::WT_FRACTAL => 36,
            WavShape::WT_GENTLE => 37,
            WavShape::WT_HARMONIC => 38,
            WavShape::WT_HYPNOTIC => 39,
            WavShape::WT_ITERATIV => 40,
            WavShape::WT_MICROWAV => 41,
            WavShape::WT_PLAITS01 => 42,
            WavShape::WT_PLAITS02 => 43,
            WavShape::WT_RISEFALL => 44,
            WavShape::WT_TONAL => 45,
            WavShape::WT_TWINE => 46,
            WavShape::WT_ALIEN => 47,
            WavShape::WT_CYBERNET => 48,
            WavShape::WT_DISORDR => 49,
            WavShape::WT_FORMANT => 50,
            WavShape::WT_HYPER => 51,
            WavShape::WT_JAGGED => 52,
            WavShape::WT_MIXED => 53,
            WavShape::WT_MULTIPLY => 54,
            WavShape::WT_NOWHERE => 55,
            WavShape::WT_PINBALL => 56,
            WavShape::WT_RINGS => 57,
            WavShape::WT_SHIMMER => 58,
            WavShape::WT_SPECTRAL => 59,
            WavShape::WT_SPOOKY => 60,
            WavShape::WT_TRANSFRM => 61,
            WavShape::WT_TWISTED => 62,
            WavShape::WT_VOCAL => 63,
            WavShape::WT_WASHED => 64,
            WavShape::WT_WONDER => 65,
            WavShape::WT_WOWEE => 66,
            WavShape::WT_ZAP => 67,
            WavShape::WT_BRAIDS => 68,
            WavShape::WT_VOXSYNTH => 69,
        }
    }

    /// The on-disk code of this value.
    #[verifier::when_used_as_spec(spec_code)]
    pub fn code(self) -> (r: u8)
        ensures
            r == self.spec_code(),
    {
        match self {
            WavShape::PULSE12 => 0,
            WavShape::PULSE25 => 1,
            WavShape::PULSE50 => 2,
            WavShape::PULSE75 => 3,
            WavShape::SAW => 4,
            WavShape::TRIANGLE => 5,
            WavShape::SINE => 6,
            WavShape::NOISE_PITCHED => 7,
            WavShape::NOISE => 8,
            WavShape::WT_CRUSH => 9,
            WavShape::WT_FOLDING => 10,
            WavShape::WT_FREQ => 11,
            WavShape::WT_FUZZY => 12,
            WavShape::WT_GHOST => 13,
            WavShape::WT_GRAPHIC => 14,
            WavShape::WT_LFOPLAY => 15,
            WavShape::WT_LIQUID => 16,
            WavShape::WT_MORPHING => 17,
            WavShape::WT_MYSTIC => 18,
            WavShape::WT_STICKY => 19,
            WavShape::WT_TIDAL => 20,
            WavShape::WT_TIDY => 21,
            WavShape::WT_TUBE => 22,
            WavShape::WT_UMBRELLA => 23,
            WavShape::WT_UNWIND => 24,
            WavShape::WT_VIRAL => 25,
            WavShape::WT_WAVES => 26,
            WavShape::WT_DRIP => 27,
            WavShape::WT_FROGGY => 28,
            WavShape::WT_INSONIC => 29,
            WavShape::WT_RADIUS => 30,
            WavShape::WT_SCRATCH => 31,
            WavShape::WT_SMOOTH => 32,
            WavShape::WT_WOBBLE => 33,
            WavShape::WT_ASIMMTRY => 34,
            WavShape::WT_BLEEN => 35,
            WavShape::WT_FRACTAL => 36,
            WavShape::WT_GENTLE => 37,
            WavShape::WT_HARMONIC => 38,
            WavShape::WT_HYPNOTIC => 39,
            WavShape::WT_ITERATIV => 40,
            WavShape::WT_MICROWAV => 41,
            WavShape::WT_PLAITS01 => 42,
            WavShape::WT_PLAITS02 => 43,
            WavShape::WT_RISEFALL => 44,
            WavShape::WT_TONAL => 45,
            WavShape::WT_TWINE => 46,
            WavShape::WT_ALIEN => 47,
            WavShape::WT_CYBERNET => 48,
            WavShape::WT_DISORDR => 49,
            WavShape::WT_FORMANT => 50,
            WavShape::WT_HYPER => 51,
            WavShape::WT_JAGGED => 52,
            WavShape::WT_MIXED => 53,
            WavShape::WT_MULTIPLY => 54,
            WavShape::WT_NOWHERE => 55,
            WavShape::WT_PINBALL => 56,
            WavShape::WT_RINGS => 57,
            WavShape::WT_SHIMMER => 58,
            WavShape::WT_SPECTRAL => 59,
            WavShape::WT_SPOOKY => 60,
            WavShape::WT_TRANSFRM => 61,
            WavShape::WT_TWISTED => 62,
            WavShape::WT_VOCAL => 63,
            WavShape::WT_WASHED => 64,
            WavShape::WT_WONDER => 65,
            WavShape::WT_WOWEE => 66,
            WavShape::WT_ZAP => 67,
            WavShape::WT_BRAIDS => 68,
            WavShape::WT_VOXSYNTH => 69,
        }
    }

    /// The value a code denotes, if any.
    pub open spec fn spec_from_code(v: u8) -> Option<WavShape> {
        match v {
            0u8 => Some(WavShape::PULSE12),
            1u8 => Some(WavShape::PULSE25),
            2u8 => Some(WavShape::PULSE50),
            3u8 => Some(WavShape::PULSE75),
            4u8 => Some(WavShape::SAW),
            5u8 => Some(WavShape::TRIANGLE),
            6u8 => Some(WavShape::SINE),
            7u8 => Some(WavShape::NOISE_PITCHED),
            8u8 => Some(WavShape::NOISE),
            9u8 => Some(WavShape::WT_CRUSH),
            10u8 => Some(WavShape::WT_FOLDING),
            11u8 => Some(WavShape::WT_FREQ),
            12u8 => Some(WavShape::WT_FUZZY),
            13u8 => Some(WavShape::WT_GHOST),
            14u8 => Some(WavShape::WT_GRAPHIC),
            15u8 => Some(WavShape::WT_LFOPLAY),
            16u8 => Some(WavShape::WT_LIQUID),
            17u8 => Some(WavShape::WT_MORPHING),
            18u8 => Some(WavShape::WT_MYSTIC),
            19u8 => Some(WavShape::WT_STICKY),
            20u8 => Some(WavShape::WT_TIDAL),
            21u8 => Some(WavShape::WT_TIDY),
            22u8 => Some(WavShape::WT_TUBE),
            23u8 => Some(WavShape::WT_UMBRELLA),
            24u8 => Some(WavShape::WT_UNWIND),
            25u8 => Some(WavShape::WT_VIRAL),
            26u8 => Some(WavShape::WT_WAVES),
            27u8 => Some(WavShape::WT_DRIP),
            28u8 => Some(WavShape::WT_FROGGY),
            29u8 => Some(WavShape::WT_INSONIC),
            30u8 => Some(WavShape::WT_RADIUS),
            31u8 => Some(WavShape::WT_SCRATCH),
            32u8 => Some(WavShape::WT_SMOOTH),
            33u8 => Some(WavShape::WT_WOBBLE),
            34u8 => Some(WavShape::WT_ASIMMTRY),
            35u8 => Some(WavShape::WT_BLEEN),
            36u8 => Some(WavShape::WT_FRACTAL),
            37u8 => Some(WavShape::WT_GENTLE),
            38u8 => Some(WavShape::WT_HARMONIC),
            39u8 => Some(WavShape::WT_HYPNOTIC),
            40u8 => Some(WavShape::WT_ITERATIV),
            41u8 => Some(WavShape::WT_MICROWAV),
            42u8 => Some(WavShape::WT_PLAITS01),
            43u8 => Some(WavShape::WT_PLAITS02),
            44u8 => Some(WavShape::WT_RISEFALL),
            45u8 => Some(WavShape::WT_TONAL),
            46u8 => Some(WavShape::WT_TWINE),
            47u8 => Some(WavShape::WT_ALIEN),
            48u8 => Some(WavShape::WT_CYBERNET),
            49u8 => Some(WavShape::WT_DISORDR),
            50u8 => Some(WavShape::WT_FORMANT),
            51u8 => Some(WavShape::WT_HYPER),
            52u8 => Some(WavShape::WT_JAGGED),
            53u8 => Some(WavShape::WT_MIXED),
            54u8 => Some(WavShape::WT_MULTIPLY),
            55u8 => Some(WavShape::WT_NOWHERE),
            56u8 => Some(WavShape::WT_PINBALL),
            57u8 => Some(WavShape::WT_RINGS),
            58u8 => Some(WavShape::WT_SHIMMER),
            59u8 => Some(WavShape::WT_SPECTRAL),
            60u8 => Some(WavShape::WT_SPOOKY),
            61u8 => Some(WavShape::WT_TRANSFRM),
            62u8 => Some(WavShape::WT_TWISTED),
            63u8 => Some(WavShape::WT_VOCAL),
            64u8 => Some(WavShape::WT_WASHED),
            65u8 => Some(WavShape::WT_WONDER),
            66u8 => Some(WavShape::WT_WOWEE),
            67u8 => Some(WavShape::WT_ZAP),
            68u8 => Some(WavShape::WT_BRAIDS),
            69u8 => Some(WavShape::WT_VOXSYNTH),
            _ => None,
        }
    }

    /// The value a code denotes, if any.
    #[verifier::when_used_as_spec(spec_from_code)]
    pub fn from_code(v: u8) -> (r: Option<WavShape>)
        ensures
            r == Self::spec_from_code(v),
    {
        match v {
            0u8 => Some(WavShape::PULSE12),
            1u8 => Some(WavShape::PULSE25),
            2u8 => Some(WavShape::PULSE50),
            3u8 => Some(WavShape::PULSE75),
            4u8 => Some(WavShape::SAW),
            5u8 => Some(WavShape::TRIANGLE),
            6u8 => Some(WavShape::SINE),
            7u8 => Some(WavShape::NOISE_PITCHED),
            8u8 => Some(WavShape::NOISE),
            9u8 => Some(WavShape::WT_CRUSH),
            10u8 => Some(WavShape::WT_FOLDING),
            11u8 => Some(WavShape::WT_FREQ),
            12u8 => Some(WavShape::WT_FUZZY),
            13u8 => Some(WavShape::WT_GHOST),
            14u8 => Some(WavShape::WT_GRAPHIC),
            15u8 => Some(WavShape::WT_LFOPLAY),
            16u8 => Some(WavShape::WT_LIQUID),
            17u8 => Some(WavShape::WT_MORPHING),
            18u8 => Some(WavShape::WT_MYSTIC),
            19u8 => Some(WavShape::WT_STICKY),
            20u8 => Some(WavShape::WT_TIDAL),
            21u8 => Some(WavShape::WT_TIDY),
            22u8 => Some(WavShape::WT_TUBE),
            23u8 => Some(WavShape::WT_UMBRELLA),
            24u8 => Some(WavShape::WT_UNWIND),
            25u8 => Some(WavShape::WT_VIRAL),
            26u8 => Some(WavShape::WT_WAVES),
            27u8 => Some(WavShape::WT_DRIP),
            28u8 => Some(WavShape::WT_FROGGY),
            29u8 => Some(WavShape::WT_INSONIC),
            30u8 => Some(WavShape::WT_RADIUS),
            31u8 => Some(WavShape::WT_SCRATCH),
            32u8 => Some(WavShape::WT_SMOOTH),
            33u8 => Some(WavShape::WT_WOBBLE),
            34u8 => Some(WavShape::WT_ASIMMTRY),
            35u8 => Some(WavShape::WT_BLEEN),
            36u8 => Some(WavShape::WT_FRACTAL),
            37u8 => Some(WavShape::WT_GENTLE),
            38u8 => Some(WavShape::WT_HARMONIC),
            39u8 => Some(WavShape::WT_HYPNOTIC),
            40u8 => Some(WavShape::WT_ITERATIV),
            41u8 => Some(WavShape::WT_MICROWAV),
            42u8 => Some(WavShape::WT_PLAITS01),
            43u8 => Some(WavShape::WT_PLAITS02),
            44u8 => Some(WavShape::WT_RISEFALL),
            45u8 => Some(WavShape::WT_TONAL),
            46u8 => Some(WavShape::WT_TWINE),
            47u8 => Some(WavShape::WT_ALIEN),
            48u8 => Some(WavShape::WT_CYBERNET),
            49u8 => Some(WavShape::WT_DISORDR),
            50u8 => Some(WavShape::WT_FORMANT),
            51u8 => Some(WavShape::WT_HYPER),
            52u8 => Some(WavShape::WT_JAGGED),
            53u8 => Some(WavShape::WT_MIXED),
            54u8 => Some(WavShape::WT_MULTIPLY),
            55u8 => Some(WavShape::WT_NOWHERE),
            56u8 => Some(WavShape::WT_PINBALL),
            57u8 => Some(WavShape::WT_RINGS),
            58u8 => Some(WavShape::WT_SHIMMER),
            59u8 => Some(WavShape::WT_SPECTRAL),
            60u8 => Some(WavShape::WT_SPOOKY),
            61u8 => Some(WavShape::WT_TRANSFRM),
            62u8 => Some(WavShape::WT_TWISTED),
            63u8 => Some(WavShape::WT_VOCAL),
            64u8 => Some(WavShape::WT_WASHED),
            65u8 => Some(WavShape::WT_WONDER),
            66u8 => Some(WavShape::WT_WOWEE),
            67u8 => Some(WavShape::WT_ZAP),
            68u8 => Some(WavShape::WT_BRAIDS),
            69u8 => Some(WavShape::WT_VOXSYNTH),
            _ => None,
        }
    }
}

/// The wavetable synthesizer: oscillator shape and scan parameters over the
/// shared synth-parameter block.
#[derive(PartialEq, Debug, Clone)]
pub struct WavSynth {
    pub number: u8,
    pub name: Vec<u8>,
    pub transpose: bool,
    pub table_tick: u8,
    pub synth_params: SynthParams,
    pub shape: WavShape,
    pub size: u8,
    pub mult: u8,
    pub warp: u8,
    pub scan: u8,
}

/// Gap between the fixed synth-parameter bytes and the modulators for this
/// kind.
pub const WAVSYNTH_MOD_OFFSET: usize = 30;

/// The record body at `h` (the byte after the kind byte) holds exactly this
/// instrument, parsed as slot `number` under `ver`.
pub open spec fn wav_synth_matches(b: Seq<u8>, h: int, ver: Version, number: u8, ws: WavSynth) -> bool {
    &&& ws.number == number
    &&& ws.name@ == string_at(b, h, 12)
    &&& ws.transpose == ((b[h + 12] & 1) != 0)
    &&& ws.table_tick == b[h + 13]
    &&& ws.synth_params.volume == b[h + 14]
    &&& ws.synth_params.pitch == b[h + 15]
    &&& ws.synth_params.fine_tune == b[h + 16]
    &&& WavShape::spec_from_code(b[h + 17]) == Some(ws.shape)
    &&& ws.size == b[h + 18]
    &&& ws.mult == b[h + 19]
    &&& ws.warp == b[h + 20]
    &&& ws.scan == b[h + 21]
    &&& if ver.spec_at_least(3, 0) {
        synth_params_matches(b, h + 22, ver, b[h + 12] >> 1, 30, ws.synth_params)
    } else {
        synth_params2_matches(b, h + 22, ws.synth_params)
    }
}

/// The record body at `h` decodes to a wavetable synthesizer under `ver`.
pub open spec fn wav_synth_valid(b: Seq<u8>, h: int, ver: Version) -> bool {
    &&& WavShape::spec_from_code(b[h + 17]) is Some
    &&& if ver.spec_at_least(3, 0) {
        synth_params_valid(b, h + 22, 30)
    } else {
        synth_params2_valid(b, h + 22)
    }
}

/// This instrument can be serialized under `ver`.
pub open spec fn wav_synth_wf(ws: WavSynth, ver: Version) -> bool {
    &&& name_wf(ws.name@, 12)
    &&& synth_params_wf(ws.synth_params)
    &&& (ver.spec_at_least(4, 1) || ws.synth_params.associated_eq < 128)
}

impl WavSynth {
    /// Parse the record body, the kind byte having been consumed.
    pub fn from_reader(reader: &mut Reader, number: u8, version: Version) -> (r: M8Result<Self>)
        requires
            old(reader).spec_pos() + 214 <= old(reader).data().len(),
        ensures
            final(reader).data() == old(reader).data(),
            r is Ok <==> wav_synth_valid(old(reader).data(), old(reader).spec_pos(), version),
            r matches Ok(ws) ==> wav_synth_matches(
                old(reader).data(),
                old(reader).spec_pos(),
                version,
                number,
                ws,
            ),
            r matches Ok(ws) ==> version.spec_at_least(4, 0) ==> wav_synth_wf(ws, version),
    {
        let name = reader.read_string(12);
        let transp_eq = TranspEq::from_version(version, reader.read());
        let table_tick = reader.read();
        let volume = reader.read();
        let pitch = reader.read();
        let fine_tune = reader.read();
        let shape_code = reader.read();
        let size = reader.read();
        let mult = reader.read();
        let warp = reader.read();
        let scan = reader.read();
        let synth_params = if version.at_least(3, 0) {
            match SynthParams::from_reader3(
                version,
                reader,
                volume,
                pitch,
                fine_tune,
                transp_eq.eq,
                WAVSYNTH_MOD_OFFSET,
            ) {
                Ok(sp) => sp,
                Err(e) => {
                    return Err(e);
                },
            }
        } else {
            match SynthParams::from_reader2(reader, volume, pitch, fine_tune) {
                Ok(sp) => sp,
                Err(e) => {
                    return Err(e);
                },
            }
        };
        let shape = match WavShape::from_code(shape_code) {
            Some(s) => s,
            None => {
                return Err(ParseError("Invalid wavsynth shape".to_string()));
            },
        };
        Ok(WavSynth {
            number,
            name,
            transpose: transp_eq.transpose,
            table_tick,
            synth_params,
            shape,
            size,
            mult,
            warp,
            scan,
        })
    }

    /// Serialize the record body, the kind byte having been written.
    pub fn write(&self, ver: Version, w: &mut Writer)
        requires
            wav_synth_wf(*self, ver),
            ver.spec_at_least(4, 0),
            old(w).spec_pos() + 214 <= old(w).data().len(),
        ensures
            final(w).data().len() == old(w).data().len(),
            preserved_outside(
                old(w).data(),
                final(w).data(),
                old(w).spec_pos(),
                old(w).spec_pos() + 214,
            ),
            wav_synth_matches(final(w).data(), old(w).spec_pos(), ver, self.number, *self),
            wav_synth_valid(final(w).data(), old(w).spec_pos(), ver),
    {
        let ghost h = old(w).spec_pos();
        w.write_string(&self.name, 12);
        let te = TranspEq::from(ver, self.transpose, self.synth_params.associated_eq);
        w.write(te.to_byte());
        w.write(self.table_tick);
        w.write(self.synth_params.volume);
        w.write(self.synth_params.pitch);
        w.write(self.synth_params.fine_tune);
        w.write(self.shape.code());
        w.write(self.size);
        w.write(self.mult);
        w.write(self.warp);
        w.write(self.scan);
        self.synth_params.write(ver, w, WAVSYNTH_MOD_OFFSET);
        proof {
            let b = final(w).data();
            assert forall|j: int| 0 <= j < self.name@.len() implies b[h + j] == self.name@[j] by {}
            if self.name@.len() < 12 {
                assert(b[h + self.name@.len()] == 0u8);
            }
            crate::reader::lemma_string_at_canonical(b, h, 12, self.name@);
        }
    }
}

/// A matching record still matches after writes that left its bytes alone.
pub proof fn lemma_wav_synth_frame(
    b1: Seq<u8>,
    b2: Seq<u8>,
    h: int,
    ver: Version,
    number: u8,
    ws: WavSynth,
)
    requires
        0 <= h,
        h + 214 <= b1.len(),
        b2.len() == b1.len(),
        ver.spec_at_least(3, 0),
        forall|k: int| h <= k < h + 214 ==> #[trigger] b2[k] == b1[k],
        wav_synth_matches(b1, h, ver, number, ws),
    ensures
        wav_synth_matches(b2, h, ver, number, ws),
{
    crate::reader::lemma_string_at_frame(b1, b2, h, 12);
    assert(b2[h + 12] == b1[h + 12]);
    assert(b2[h + 13] == b1[h + 13]);
    assert(b2[h + 14] == b1[h + 14]);
    assert(b2[h + 15] == b1[h + 15]);
    assert(b2[h + 16] == b1[h + 16]);
    assert(b2[h + 17] == b1[h + 17]);
    assert(b2[h + 18] == b1[h + 18]);
    assert(b2[h + 19] == b1[h + 19]);
    assert(b2[h + 20] == b1[h + 20]);
    assert(b2[h + 21] == b1[h + 21]);
    assert forall|k: int| h + 22 <= k < h + 22 + 10 + 30 + 24 implies #[trigger] b2[k]
        == b1[k] by {
        assert(b2[k] == b1[k]);
    }
    crate::instruments::common::lemma_synth_params_frame(
        b1,
        b2,
        h + 22,
        ver,
        b1[h + 12] >> 1,
        30,
        ws.synth_params,
    );
}

} // verus!

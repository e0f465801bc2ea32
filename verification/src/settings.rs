//! Flat settings records of a song: MIDI, mixer, effects, and the MIDI
//! mapping table.

use crate::reader::{M8Result, Reader};
use crate::version::Version;
use vstd::prelude::*;

verus! {

broadcast use crate::reader::lemma_reader_pos_nonneg, crate::reader::lemma_reader_data_bound;

/// Global MIDI configuration of a song.
#[derive(PartialEq, Debug, Clone)]
pub struct MidiSettings {
    pub receive_sync: bool,
    pub receive_transport: u8,
    pub send_sync: bool,
    pub send_transport: u8,
    pub record_note_channel: u8,
    pub record_note_velocity: bool,
    pub record_note_delay_kill_commands: u8,
    pub control_map_channel: u8,
    pub song_row_cue_channel: u8,
    pub track_input_channel: Vec<u8>,
    pub track_input_intrument: Vec<u8>,
    pub track_input_program_change: bool,
    pub track_input_mode: u8,
}

/// The twenty-seven bytes at `m` hold exactly these MIDI settings.
pub open spec fn midi_settings_matches(b: Seq<u8>, m: int, s: MidiSettings) -> bool {
    &&& s.receive_sync == (b[m] == 1)
    &&& s.receive_transport == b[m + 1]
    &&& s.send_sync == (b[m + 2] == 1)
    &&& s.send_transport == b[m + 3]
    &&& s.record_note_channel == b[m + 4]
    &&& s.record_note_velocity == (b[m + 5] == 1)
    &&& s.record_note_delay_kill_commands == b[m + 6]
    &&& s.control_map_channel == b[m + 7]
    &&& s.song_row_cue_channel == b[m + 8]
    &&& s.track_input_channel@ == b.subrange(m + 9, m + 17)
    &&& s.track_input_intrument@ == b.subrange(m + 17, m + 25)
    &&& s.track_input_program_change == (b[m + 25] == 1)
    &&& s.track_input_mode == b[m + 26]
}

impl MidiSettings {
    /// Parse the twenty-seven byte record at the cursor.
    pub fn try_from(reader: &mut Reader) -> (r: M8Result<Self>)
        requires
            old(reader).spec_pos() + 27 <= old(reader).data().len(),
        ensures
            final(reader).data() == old(reader).data(),
            final(reader).spec_pos() == old(reader).spec_pos() + 27,
            r matches Ok(s) && midi_settings_matches(
                old(reader).data(),
                old(reader).spec_pos(),
                s,
            ),
    {
        Ok(Self {
            receive_sync: reader.read_bool(),
            receive_transport: reader.read(),
            send_sync: reader.read_bool(),
            send_transport: reader.read(),
            record_note_channel: reader.read(),
            record_note_velocity: reader.read_bool(),
            record_note_delay_kill_commands: reader.read(),
            control_map_channel: reader.read(),
            song_row_cue_channel: reader.read(),
            track_input_channel: reader.read_bytes(8),
            track_input_intrument: reader.read_bytes(8),
            track_input_program_change: reader.read_bool(),
            track_input_mode: reader.read(),
        })
    }
}

/// Per-input mixer sends.
#[derive(PartialEq, Eq, Structural, Debug, Clone, Copy)]
pub struct InputMixerSettings {
    pub volume: u8,
    pub chorus: u8,
    pub delay: u8,
    pub reverb: u8,
}

/// Analog input routing: one stereo input, or two mono inputs.
#[derive(PartialEq, Eq, Structural, Debug, Clone, Copy)]
pub enum AnalogInputSettings {
    Stereo(InputMixerSettings),
    DualMono(InputMixerSettings, InputMixerSettings),
}

/// Mixer configuration of a song.
#[derive(PartialEq, Debug, Clone)]
pub struct MixerSettings {
    pub master_volume: u8,
    pub master_limit: u8,
    pub track_volume: Vec<u8>,
    pub chorus_volume: u8,
    pub delay_volume: u8,
    pub reverb_volume: u8,
    pub analog_input: AnalogInputSettings,
    pub usb_input: InputMixerSettings,
    pub dj_filter: u8,
    pub dj_peak: u8,
    pub dj_filter_type: u8,
}

/// The input mixer built from the left analog channel's bytes.
pub open spec fn analog_left_at(b: Seq<u8>, m: int) -> InputMixerSettings {
    InputMixerSettings { volume: b[m + 13], chorus: b[m + 16], delay: b[m + 18], reverb: b[m + 20] }
}

/// The thirty-two bytes at `m` hold exactly these mixer settings.  A `0xFF`
/// second analog volume byte selects the stereo layout; either way both
/// mono slots carry the left channel's values.
pub open spec fn mixer_settings_matches(b: Seq<u8>, m: int, s: MixerSettings) -> bool {
    &&& s.master_volume == b[m]
    &&& s.master_limit == b[m + 1]
    &&& s.track_volume@ == b.subrange(m + 2, m + 10)
    &&& s.chorus_volume == b[m + 10]
    &&& s.delay_volume == b[m + 11]
    &&& s.reverb_volume == b[m + 12]
    &&& s.analog_input == if b[m + 14] == 0xFF {
        AnalogInputSettings::Stereo(analog_left_at(b, m))
    } else {
        AnalogInputSettings::DualMono(analog_left_at(b, m), analog_left_at(b, m))
    }
    &&& s.usb_input == (InputMixerSettings {
        volume: b[m + 15],
        chorus: b[m + 22],
        delay: b[m + 23],
        reverb: b[m + 24],
    })
    &&& s.dj_filter == b[m + 25]
    &&& s.dj_peak == b[m + 26]
    &&& s.dj_filter_type == b[m + 27]
}

impl MixerSettings {
    /// Parse the thirty-two byte record at the cursor.
    pub fn from_reader(reader: &mut Reader) -> (r: M8Result<Self>)
        requires
            old(reader).spec_pos() + 32 <= old(reader).data().len(),
        ensures
            final(reader).data() == old(reader).data(),
            final(reader).spec_pos() == old(reader).spec_pos() + 32,
            r matches Ok(s) && mixer_settings_matches(
                old(reader).data(),
                old(reader).spec_pos(),
                s,
            ),
    {
        let master_volume = reader.read();
        let master_limit = reader.read();
        let track_volume = reader.read_bytes(8);
        let chorus_volume = reader.read();
        let delay_volume = reader.read();
        let reverb_volume = reader.read();
        let analog_input_volume_l = reader.read();
        let analog_input_volume_r = reader.read();
        let usb_input_volume = reader.read();
        let analog_input_chorus_l = reader.read();
        let _analog_input_chorus_r = reader.read();
        let analog_input_delay_l = reader.read();
        let _analog_input_delay_r = reader.read();
        let analog_input_reverb_l = reader.read();
        let _analog_input_reverb_r = reader.read();
        let usb_input_chorus = reader.read();
        let usb_input_delay = reader.read();
        let usb_input_reverb = reader.read();
        let analog_input_l = InputMixerSettings {
            volume: analog_input_volume_l,
            chorus: analog_input_chorus_l,
            delay: analog_input_delay_l,
            reverb: analog_input_reverb_l,
        };
        let analog_input = if analog_input_volume_r == 255 {
            AnalogInputSettings::Stereo(analog_input_l)
        } else {
            let analog_input_r = InputMixerSettings {
                volume: analog_input_volume_l,
                chorus: analog_input_chorus_l,
                delay: analog_input_delay_l,
                reverb: analog_input_reverb_l,
            };
            AnalogInputSettings::DualMono(analog_input_l, analog_input_r)
        };
        let usb_input = InputMixerSettings {
            volume: usb_input_volume,
            chorus: usb_input_chorus,
            delay: usb_input_delay,
            reverb: usb_input_reverb,
        };
        let dj_filter = reader.read();
        let dj_peak = reader.read();
        let dj_filter_type = reader.read();
        let _ = reader.read_bytes(4);
        Ok(Self {
            master_volume,
            master_limit,
            track_volume,
            chorus_volume,
            delay_volume,
            reverb_volume,
            analog_input,
            usb_input,
            dj_filter,
            dj_peak,
            dj_filter_type,
        })
    }
}

/// Global effects configuration of a song.
#[derive(PartialEq, Eq, Structural, Debug, Clone, Copy)]
pub struct EffectsSettings {
    pub chorus_mod_depth: u8,
    pub chorus_mod_freq: u8,
    pub chorus_reverb_send: u8,
    pub delay_hp: u8,
    pub delay_lp: u8,
    pub delay_time_l: u8,
    pub delay_time_r: u8,
    pub delay_feedback: u8,
    pub delay_width: u8,
    pub delay_reverb_send: u8,
    pub reverb_hp: u8,
    pub reverb_lp: u8,
    pub reverb_size: u8,
    pub reverb_damping: u8,
    pub reverb_mod_depth: u8,
    pub reverb_mod_freq: u8,
    pub reverb_width: u8,
}

/// The effects record at `e` holds exactly these settings.  From format
/// 4.0 the delay and reverb filter bytes are no longer read and are zeroed
/// instead, which shifts every later field.
pub open spec fn effects_settings_matches(b: Seq<u8>, e: int, ver: Version, s: EffectsSettings) -> bool {
    &&& s.chorus_mod_depth == b[e]
    &&& s.chorus_mod_freq == b[e + 1]
    &&& s.chorus_reverb_send == b[e + 2]
    &&& if ver.spec_at_least(4, 0) {
        &&& s.delay_hp == 0
        &&& s.delay_lp == 0
        &&& s.delay_time_l == b[e + 6]
        &&& s.delay_time_r == b[e + 7]
        &&& s.delay_feedback == b[e + 8]
        &&& s.delay_width == b[e + 9]
        &&& s.delay_reverb_send == b[e + 10]
        &&& s.reverb_hp == 0
        &&& s.reverb_lp == 0
        &&& s.reverb_size == b[e + 12]
        &&& s.reverb_damping == b[e + 13]
        &&& s.reverb_mod_depth == b[e + 14]
        &&& s.reverb_mod_freq == b[e + 15]
        &&& s.reverb_width == b[e + 16]
    } else {
        &&& s.delay_hp == b[e + 6]
        &&& s.delay_lp == b[e + 7]
        &&& s.delay_time_l == b[e + 8]
        &&& s.delay_time_r == b[e + 9]
        &&& s.delay_feedback == b[e + 10]
        &&& s.delay_width == b[e + 11]
        &&& s.delay_reverb_send == b[e + 12]
        &&& s.reverb_hp == b[e + 14]
        &&& s.reverb_lp == b[e + 15]
        &&& s.reverb_size == b[e + 16]
        &&& s.reverb_damping == b[e + 17]
        &&& s.reverb_mod_depth == b[e + 18]
        &&& s.reverb_mod_freq == b[e + 19]
        &&& s.reverb_width == b[e + 20]
    }
}

impl EffectsSettings {
    /// Parse the effects record at the cursor.
    pub fn from_reader(reader: &mut Reader, version: Version) -> (r: M8Result<Self>)
        requires
            old(reader).spec_pos() + 21 <= old(reader).data().len(),
        ensures
            final(reader).data() == old(reader).data(),
            r matches Ok(s) && effects_settings_matches(
                old(reader).data(),
                old(reader).spec_pos(),
                version,
                s,
            ),
    {
        let chorus_mod_depth = reader.read();
        let chorus_mod_freq = reader.read();
        let chorus_reverb_send = reader.read();
        let _ = reader.read_bytes(3);
        let delay_hp: u8;
        let delay_lp: u8;
        if version.at_least(4, 0) {
            delay_hp = 0;
            delay_lp = 0;
        } else {
            delay_hp = reader.read();
            delay_lp = reader.read();
        }
        let delay_time_l = reader.read();
        let delay_time_r = reader.read();
        let delay_feedback = reader.read();
        let delay_width = reader.read();
        let delay_reverb_send = reader.read();
        let _ = reader.read_bytes(1);
        let reverb_hp: u8;
        let reverb_lp: u8;
        if version.at_least(4, 0) {
            reverb_hp = 0;
            reverb_lp = 0;
        } else {
            reverb_hp = reader.read();
            reverb_lp = reader.read();
        }
        let reverb_size = reader.read();
        let reverb_damping = reader.read();
        let reverb_mod_depth = reader.read();
        let reverb_mod_freq = reader.read();
        let reverb_width = reader.read();
        Ok(Self {
            chorus_mod_depth,
            chorus_mod_freq,
            chorus_reverb_send,
            delay_hp,
            delay_lp,
            delay_time_l,
            delay_time_r,
            delay_feedback,
            delay_width,
            delay_reverb_send,
            reverb_hp,
            reverb_lp,
            reverb_size,
            reverb_damping,
            reverb_mod_depth,
            reverb_mod_freq,
            reverb_width,
        })
    }
}

/// One entry of the MIDI mapping table.
#[derive(PartialEq, Eq, Structural, Debug, Clone, Copy)]
pub struct MidiMapping {
    pub channel: u8,
    pub control_number: u8,
    pub value: u8,
    pub typ: u8,
    pub param_index: u8,
    pub min_value: u8,
    pub max_value: u8,
}

/// The seven bytes at `m` hold exactly this mapping.
pub open spec fn midi_mapping_matches(b: Seq<u8>, m: int, s: MidiMapping) -> bool {
    &&& s.channel == b[m]
    &&& s.control_number == b[m + 1]
    &&& s.value == b[m + 2]
    &&& s.typ == b[m + 3]
    &&& s.param_index == b[m + 4]
    &&& s.min_value == b[m + 5]
    &&& s.max_value == b[m + 6]
}

impl MidiMapping {
    /// Parse the seven-byte record at the cursor.
    pub fn from_reader(reader: &mut Reader) -> (r: M8Result<Self>)
        requires
            old(reader).spec_pos() + 7 <= old(reader).data().len(),
        ensures
            final(reader).data() == old(reader).data(),
            final(reader).spec_pos() == old(reader).spec_pos() + 7,
            r matches Ok(s) && midi_mapping_matches(old(reader).data(), old(reader).spec_pos(), s),
    {
        Ok(Self {
            channel: reader.read(),
            control_number: reader.read(),
            value: reader.read(),
            typ: reader.read(),
            param_index: reader.read(),
            min_value: reader.read(),
            max_value: reader.read(),
        })
    }

    /// A mapping slot is unused when its channel byte is zero.
    pub fn empty(&self) -> (r: bool)
        ensures
            r == (self.channel == 0),
    {
        self.channel == 0
    }
}

/// `midi_settings_matches` depends only on the twenty-seven bytes at `m`.
pub proof fn lemma_midi_settings_frame(b1: Seq<u8>, b2: Seq<u8>, m: int, s: MidiSettings)
    requires
        0 <= m,
        m + 27 <= b1.len(),
        b2.len() == b1.len(),
        forall|k: int| m <= k < m + 27 ==> #[trigger] b2[k] == b1[k],
        midi_settings_matches(b1, m, s),
    ensures
        midi_settings_matches(b2, m, s),
{
    assert(b2[m] == b1[m]);
    assert(b2[m + 1] == b1[m + 1]);
    assert(b2[m + 2] == b1[m + 2]);
    assert(b2[m + 3] == b1[m + 3]);
    assert(b2[m + 4] == b1[m + 4]);
    assert(b2[m + 5] == b1[m + 5]);
    assert(b2[m + 6] == b1[m + 6]);
    assert(b2[m + 7] == b1[m + 7]);
    assert(b2[m + 8] == b1[m + 8]);
    assert(b2[m + 25] == b1[m + 25]);
    assert(b2[m + 26] == b1[m + 26]);
    assert(b2.subrange(m + 9, m + 17) =~= b1.subrange(m + 9, m + 17)) by {
        assert forall|j: int| 0 <= j < 8 implies #[trigger] b2.subrange(m + 9, m + 17)[j]
            == b1.subrange(m + 9, m + 17)[j] by {
            assert(b2[m + 9 + j] == b1[m + 9 + j]);
        }
    }
    assert(b2.subrange(m + 17, m + 25) =~= b1.subrange(m + 17, m + 25)) by {
        assert forall|j: int| 0 <= j < 8 implies #[trigger] b2.subrange(m + 17, m + 25)[j]
            == b1.subrange(m + 17, m + 25)[j] by {
            assert(b2[m + 17 + j] == b1[m + 17 + j]);
        }
    }
}

/// `mixer_settings_matches` depends only on the thirty-two bytes at `m`.
pub proof fn lemma_mixer_settings_frame(b1: Seq<u8>, b2: Seq<u8>, m: int, s: MixerSettings)
    requires
        0 <= m,
        m + 32 <= b1.len(),
        b2.len() == b1.len(),
        forall|k: int| m <= k < m + 32 ==> #[trigger] b2[k] == b1[k],
        mixer_settings_matches(b1, m, s),
    ensures
        mixer_settings_matches(b2, m, s),
{
    assert(b2[m] == b1[m]);
    assert(b2[m + 1] == b1[m + 1]);
    assert(b2[m + 10] == b1[m + 10]);
    assert(b2[m + 11] == b1[m + 11]);
    assert(b2[m + 12] == b1[m + 12]);
    assert(b2[m + 13] == b1[m + 13]);
    assert(b2[m + 14] == b1[m + 14]);
    assert(b2[m + 15] == b1[m + 15]);
    assert(b2[m + 16] == b1[m + 16]);
    assert(b2[m + 18] == b1[m + 18]);
    assert(b2[m + 20] == b1[m + 20]);
    assert(b2[m + 22] == b1[m + 22]);
    assert(b2[m + 23] == b1[m + 23]);
    assert(b2[m + 24] == b1[m + 24]);
    assert(b2[m + 25] == b1[m + 25]);
    assert(b2[m + 26] == b1[m + 26]);
    assert(b2[m + 27] == b1[m + 27]);
    assert(analog_left_at(b2, m) == analog_left_at(b1, m));
    assert(b2.subrange(m + 2, m + 10) =~= b1.subrange(m + 2, m + 10)) by {
        assert forall|j: int| 0 <= j < 8 implies #[trigger] b2.subrange(m + 2, m + 10)[j]
            == b1.subrange(m + 2, m + 10)[j] by {
            assert(b2[m + 2 + j] == b1[m + 2 + j]);
        }
    }
}

/// `effects_settings_matches` depends only on the twenty-one bytes at `e`.
pub proof fn lemma_effects_settings_frame(
    b1: Seq<u8>,
    b2: Seq<u8>,
    e: int,
    ver: Version,
    s: EffectsSettings,
)
    requires
        forall|k: int| e <= k < e + 21 ==> #[trigger] b2[k] == b1[k],
        effects_settings_matches(b1, e, ver, s),
    ensures
        effects_settings_matches(b2, e, ver, s),
{
    assert(b2[e] == b1[e]);
    assert(b2[e + 1] == b1[e + 1]);
    assert(b2[e + 2] == b1[e + 2]);
    assert(b2[e + 6] == b1[e + 6]);
    assert(b2[e + 7] == b1[e + 7]);
    assert(b2[e + 8] == b1[e + 8]);
    assert(b2[e + 9] == b1[e + 9]);
    assert(b2[e + 10] == b1[e + 10]);
    assert(b2[e + 11] == b1[e + 11]);
    assert(b2[e + 12] == b1[e + 12]);
    assert(b2[e + 13] == b1[e + 13]);
    assert(b2[e + 14] == b1[e + 14]);
    assert(b2[e + 15] == b1[e + 15]);
    assert(b2[e + 16] == b1[e + 16]);
    assert(b2[e + 17] == b1[e + 17]);
    assert(b2[e + 18] == b1[e + 18]);
    assert(b2[e + 19] == b1[e + 19]);
    assert(b2[e + 20] == b1[e + 20]);
}

/// `midi_mapping_matches` depends only on the seven bytes at `m`.
pub proof fn lemma_midi_mapping_frame(b1: Seq<u8>, b2: Seq<u8>, m: int, s: MidiMapping)
    requires
        forall|k: int| m <= k < m + 7 ==> #[trigger] b2[k] == b1[k],
        midi_mapping_matches(b1, m, s),
    ensures
        midi_mapping_matches(b2, m, s),
{
    assert(b2[m] == b1[m]);
    assert(b2[m + 1] == b1[m + 1]);
    assert(b2[m + 2] == b1[m + 2]);
    assert(b2[m + 3] == b1[m + 3]);
    assert(b2[m + 4] == b1[m + 4]);
    assert(b2[m + 5] == b1[m + 5]);
    assert(b2[m + 6] == b1[m + 6]);
}

} // verus!

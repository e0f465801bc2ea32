//! Section-level tests: settings records, scales, themes and grooves.

use m8_files::reader::Reader;
use m8_files::scale::Scale;
use m8_files::settings::{
    AnalogInputSettings, EffectsSettings, MidiMapping, MidiSettings, MixerSettings,
};
use m8_files::songs::Groove;
use m8_files::theme::Theme;
use m8_files::version::Version;

#[test]
fn midi_settings_fields() {
    let mut b = vec![0u8; 27];
    b[0] = 1; // receive sync
    b[1] = 2; // receive transport
    b[4] = 9; // record note channel
    b[9] = 11; // first track input channel
    b[25] = 1; // program change
    b[26] = 3; // input mode
    let mut r = Reader::new(b);
    let s = MidiSettings::try_from(&mut r).unwrap();
    assert!(s.receive_sync);
    assert_eq!(s.receive_transport, 2);
    assert_eq!(s.record_note_channel, 9);
    assert_eq!(s.track_input_channel[0], 11);
    assert!(s.track_input_program_change);
    assert_eq!(s.track_input_mode, 3);
}

#[test]
fn mixer_settings_stereo_and_dual_mono() {
    let mut b = vec![0u8; 32];
    b[0] = 0xE0; // master volume
    b[2] = 0xE0; // track one volume
    b[14] = 0xFF; // second analog volume byte: stereo layout
    b[25] = 0x80; // dj filter
    b[27] = 0x02; // dj filter type
    let mut r = Reader::new(b.clone());
    let s = MixerSettings::from_reader(&mut r).unwrap();
    assert_eq!(s.master_volume, 0xE0);
    assert_eq!(s.track_volume[0], 0xE0);
    assert_eq!(s.dj_filter, 0x80);
    assert_eq!(s.dj_filter_type, 0x02);
    assert!(matches!(s.analog_input, AnalogInputSettings::Stereo(_)));

    b[14] = 0x40; // a real second volume byte selects the dual-mono layout
    let mut r = Reader::new(b);
    let s = MixerSettings::from_reader(&mut r).unwrap();
    assert!(matches!(s.analog_input, AnalogInputSettings::DualMono(_, _)));
}

#[test]
fn effects_settings_version_branch() {
    let mut b = vec![0u8; 21];
    for (i, x) in b.iter_mut().enumerate() {
        *x = i as u8;
    }
    // From format 4.0 the filter bytes are zeroed and later fields shift.
    let mut r = Reader::new(b.clone());
    let v4 = Version { major: 4, minor: 0, patch: 0 };
    let s = EffectsSettings::from_reader(&mut r, v4).unwrap();
    assert_eq!(s.chorus_mod_depth, 0);
    assert_eq!(s.delay_hp, 0);
    assert_eq!(s.delay_lp, 0);
    assert_eq!(s.delay_time_l, 6);
    assert_eq!(s.reverb_size, 12);
    assert_eq!(s.reverb_width, 16);
    // Before 4.0 the filter bytes are read in place.
    let mut r = Reader::new(b);
    let v3 = Version { major: 3, minor: 0, patch: 0 };
    let s = EffectsSettings::from_reader(&mut r, v3).unwrap();
    assert_eq!(s.delay_hp, 6);
    assert_eq!(s.delay_lp, 7);
    assert_eq!(s.delay_time_l, 8);
    assert_eq!(s.reverb_hp, 14);
    assert_eq!(s.reverb_width, 20);
}

#[test]
fn midi_mapping_empty_flag() {
    let mut r = Reader::new(vec![0, 1, 2, 3, 4, 5, 6]);
    let m = MidiMapping::from_reader(&mut r).unwrap();
    assert!(m.empty());
    assert_eq!(m.control_number, 1);
    assert_eq!(m.max_value, 6);
    let mut r = Reader::new(vec![9, 1, 2, 3, 4, 5, 6]);
    let m = MidiMapping::from_reader(&mut r).unwrap();
    assert!(!m.empty());
}

#[test]
fn scale_record_fields() {
    let mut b = vec![0u8; 42];
    // enable map: notes zero and two
    b[0] = 0b0000_0101;
    b[1] = 0;
    b[2] = 12; // note zero: twelve semitones
    b[3] = 50; // and fifty hundredths
    b[26] = b'M';
    b[27] = b'Y';
    let mut r = Reader::new(b);
    let s = Scale::from_reader(&mut r, 7).unwrap();
    assert_eq!(s.number, 7);
    assert!(s.notes[0].enabled);
    assert!(!s.notes[1].enabled);
    assert!(s.notes[2].enabled);
    assert_eq!(s.notes[0].semitones, 12);
    assert_eq!(s.notes[0].cents, 50);
    assert_eq!(s.name, b"MY".to_vec());
}

#[test]
fn scale_default_is_chromatic() {
    let s = Scale::default();
    assert_eq!(s.notes.len(), 12);
    assert!(s.notes.iter().all(|n| n.enabled && n.semitones == 0 && n.cents == 0));
    assert_eq!(s.name, b"CHROMATIC".to_vec());
}

#[test]
fn theme_colors() {
    let mut b = vec![0u8; 39];
    b[0] = 10;
    b[1] = 20;
    b[2] = 30;
    b[36] = 0xFF;
    let mut r = Reader::new(b);
    let t = Theme::from_reader(&mut r).unwrap();
    assert_eq!(t.background.r, 10);
    assert_eq!(t.background.g, 20);
    assert_eq!(t.background.b, 30);
    assert_eq!(t.meter_peak.r, 0xFF);
}

#[test]
fn groove_active_steps() {
    let mut r = Reader::new(vec![6, 6, 6, 255, 0, 0, 0, 0, 0, 0, 0, 0, 0, 0, 0, 0]);
    let g = Groove::from_reader(&mut r, 2).unwrap();
    assert_eq!(g.number, 2);
    assert_eq!(g.active_steps(), vec![6, 6, 6]);
    // Without a terminator, all but the last step are active.
    let mut r = Reader::new(vec![1u8; 16]);
    let g = Groove::from_reader(&mut r, 0).unwrap();
    assert_eq!(g.active_steps().len(), 15);
}

//! Byte-level codec tests: cursor, version gate, modulators, EQ bands and
//! the sentinel conventions.

use m8_files::eq::{EqBand, EqMode, EqModeType, EqType, Equ};
use m8_files::fx::FX;
use m8_files::instruments::modulator::{
    ADSREnv, AHDEnv, DrumEnv, LfoShape, LfoTriggerMode, Mod, TrackingEnv, TrigEnv, LFO,
};
use m8_files::reader::Reader;
use m8_files::songs::{ChainStep, Note, Step, TableStep};
use m8_files::version::Version;
use m8_files::writer::Writer;

#[test]
fn version_gating() {
    let v41 = Version { major: 4, minor: 1, patch: 0 };
    assert_eq!(v41.at_least(4, 0), true);
    let v39 = Version { major: 3, minor: 9, patch: 0 };
    assert_eq!(v39.at_least(4, 0), false);
    let v40 = Version { major: 4, minor: 0, patch: 7 };
    assert!(v40.at_least(4, 0));
    assert!(!v40.at_least(4, 1));
    assert!(v41.at_least(3, 0));
}

#[test]
fn version_block_round_trip() {
    let mut w = Writer::new(vec![0u8; 32]);
    w.seek(10);
    let v = Version { major: 4, minor: 1, patch: 2 };
    v.write(&mut w);
    let buf = w.finish();
    assert_eq!(buf[10], (1 << 4) | 2);
    assert_eq!(buf[11], 4);
    let mut r = Reader::new(buf);
    let back = Version::from_reader(&mut r).unwrap();
    assert_eq!(back, v);
}

#[test]
fn reader_reads_bytes_and_strings() {
    let mut r = Reader::new(vec![1, 2, 65, 66, 0, 99, 255, 7]);
    assert_eq!(r.read(), 1);
    assert_eq!(r.read(), 2);
    let s = r.read_string(4);
    assert_eq!(s, b"AB".to_vec());
    assert_eq!(r.pos(), 6);
    r.set_pos(7);
    assert_eq!(r.read(), 7);
}

#[test]
fn writer_strings_zero_fill() {
    let mut w = Writer::new(vec![0xAA; 8]);
    w.write_string(&b"HI".to_vec(), 4);
    let buf = w.finish();
    assert_eq!(&buf[0..4], &[b'H', b'I', 0, 0]);
    assert_eq!(&buf[4..8], &[0xAA; 4]);
}

/// Writing any modulator advances the cursor by exactly six bytes, even
/// when the variant's own payload is shorter.
#[test]
fn modulator_fixed_stride() {
    let mods = [
        Mod::AHDEnv(AHDEnv { dest: 1, amount: 2, attack: 3, hold: 4, decay: 5 }),
        Mod::ADSREnv(ADSREnv { dest: 2, amount: 9, attack: 8, decay: 7, sustain: 6, release: 5 }),
        Mod::DrumEnv(DrumEnv { dest: 3, amount: 1, peak: 2, body: 3, decay: 4 }),
        Mod::LFO(LFO {
            shape: LfoShape::SIN,
            dest: 4,
            trigger_mode: LfoTriggerMode::RETRIG,
            freq: 9,
            amount: 8,
            retrigger: 7,
        }),
        Mod::TrigEnv(TrigEnv { dest: 5, amount: 1, attack: 2, hold: 3, decay: 4, src: 5 }),
        Mod::TrackingEnv(TrackingEnv { dest: 6, amount: 1, src: 2, lval: 3, hval: 4 }),
    ];
    for m in mods.iter() {
        let mut w = Writer::new(vec![0u8; 16]);
        m.write(&mut w);
        assert_eq!(w.pos(), 6);
    }
}

#[test]
fn modulator_round_trip() {
    let mods = [
        Mod::AHDEnv(AHDEnv { dest: 1, amount: 2, attack: 3, hold: 4, decay: 5 }),
        Mod::ADSREnv(ADSREnv { dest: 2, amount: 9, attack: 8, decay: 7, sustain: 6, release: 5 }),
        Mod::DrumEnv(DrumEnv { dest: 3, amount: 1, peak: 2, body: 3, decay: 4 }),
        Mod::LFO(LFO {
            shape: LfoShape::DRNK_T,
            dest: 4,
            trigger_mode: LfoTriggerMode::ONCE,
            freq: 9,
            amount: 8,
            retrigger: 7,
        }),
        Mod::TrigEnv(TrigEnv { dest: 5, amount: 1, attack: 2, hold: 3, decay: 4, src: 5 }),
        Mod::TrackingEnv(TrackingEnv { dest: 15, amount: 1, src: 2, lval: 3, hval: 4 }),
    ];
    for m in mods.iter() {
        let mut w = Writer::new(vec![0u8; 6]);
        m.write(&mut w);
        let mut r = Reader::new(w.finish());
        let back = Mod::from_reader(&mut r).unwrap();
        assert_eq!(&back, m);
        assert_eq!(r.pos(), 6);
    }
}

#[test]
fn modulator_unknown_kind_is_error() {
    // Kind nibble 6 is outside the closed set of six modulator kinds.
    let mut r = Reader::new(vec![0x60, 0, 0, 0, 0, 0]);
    assert!(Mod::from_reader(&mut r).is_err());
}

#[test]
fn lfo_invalid_shape_is_error() {
    // Tag 0x30 selects an LFO; shape byte 20 is outside the closed set.
    let mut r = Reader::new(vec![0x30, 0, 20, 0, 0, 0]);
    assert!(Mod::from_reader(&mut r).is_err());
    // Trigger mode 4 is outside the closed set.
    let mut r = Reader::new(vec![0x30, 0, 0, 4, 0, 0]);
    assert!(Mod::from_reader(&mut r).is_err());
}

#[test]
fn eq_mode_type_packing() {
    let mt = EqModeType::new(EqType::HiShelf, EqMode::Side);
    assert_eq!(mt.eq_type_hex(), 4);
    assert_eq!(mt.eq_mode_hex(), 2);
    assert_eq!(mt.eq_type(), EqType::HiShelf);
    assert_eq!(mt.eq_mode(), EqMode::Side);
    assert_eq!(mt.0, 4 | (2 << 5));
}

#[test]
fn eq_band_defaults_and_frequency() {
    let low = EqBand::default_low();
    assert_eq!(low.frequency(), 100);
    let mid = EqBand::default_mid();
    assert_eq!(mid.frequency(), 1000);
    let high = EqBand::default_high();
    assert_eq!(high.frequency(), 5000);
    assert!(low.is_empty());
    let eq = Equ::default();
    assert!(eq.is_empty());
    let mut edited = eq.clone();
    edited.low.level = 10;
    assert!(!edited.is_empty());
    edited.clear();
    assert!(edited.is_empty());
}

#[test]
fn eq_record_round_trip() {
    let mut eq = Equ::default();
    eq.mid.level = 0x22;
    eq.mid.freq = 0x03;
    eq.high.q = 77;
    let mut w = Writer::new(vec![0u8; 18]);
    eq.write(&mut w);
    let mut r = Reader::new(w.finish());
    let back = Equ::from_reader(&mut r);
    assert_eq!(back, eq);
}

/// A chain step is empty exactly when its phrase byte is the sentinel, and
/// a step is empty exactly when note, velocity, instrument and all three
/// effect commands hold their sentinels.
#[test]
fn sentinel_consistency() {
    let cs = ChainStep { phrase: 0xFF, transpose: 3 };
    assert!(cs.is_empty());
    let cs2 = ChainStep { phrase: 0, transpose: 0 };
    assert!(!cs2.is_empty());

    let mut step = Step::default();
    assert!(step.is_empty());
    step.velocity = 0x40;
    assert!(!step.is_empty());
    step.clear();
    assert!(step.is_empty());
    step.fx2 = FX { command: 0x11, value: 0 };
    assert!(!step.is_empty());

    assert!(Note(0xFF).is_empty());
    assert!(!Note(0x3C).is_empty());

    let ts = TableStep::default();
    assert!(ts.is_empty());
    let mut ts2 = ts.clone();
    ts2.transpose = 1;
    assert!(!ts2.is_empty());
}

//! Whole-song container tests: parsing a synthetic format 4.0 song,
//! serializing it back, and the concrete instrument-layout scenario.

use m8_files::instruments::modulator::Mod;
use m8_files::instruments::Instrument;
use m8_files::reader::Reader;
use m8_files::songs::Song;
use m8_files::writer::Writer;

/// Byte size of a buffer that can hold a format 4.0 song with its 32 EQs.
const V4_BUFFER_SIZE: usize = 0x1B01E;

/// A buffer holding a structurally empty format 4.0 song: empty grid,
/// empty phrases, chains and tables, every instrument slot unused.
fn empty_song_buffer_v4() -> Vec<u8> {
    let mut b = vec![0u8; V4_BUFFER_SIZE];
    b[10] = 0; // minor 0, patch 0
    b[11] = 4; // major 4
    for k in 0x2EE..0xAEE {
        b[k] = 0xFF; // song grid: no chain referenced
    }
    for i in 0..(255 * 16) {
        let p = 0xAEE + 9 * i;
        b[p] = 0xFF; // note
        b[p + 1] = 0xFF; // velocity
        b[p + 2] = 0xFF; // instrument
        b[p + 3] = 0xFF; // fx1 command
        b[p + 5] = 0xFF; // fx2 command
        b[p + 7] = 0xFF; // fx3 command
    }
    for i in 0..(255 * 16) {
        let p = 0x9A5E + 2 * i;
        b[p] = 0xFF; // chain step phrase
    }
    for i in 0..(256 * 16) {
        let p = 0xBA3E + 8 * i;
        b[p + 1] = 0xFF; // velocity
        b[p + 2] = 0xFF; // fx1 command
        b[p + 4] = 0xFF; // fx2 command
        b[p + 6] = 0xFF; // fx3 command
    }
    for i in 0..128 {
        b[0x13A3E + 215 * i] = 0xFF; // instrument kind: none
    }
    b
}

/// Poke a wave synthesizer into instrument slot `slot`: transpose set,
/// size 0x20, reverb send 0xD0, and the four modulators AHD, ADSR, Drum,
/// LFO in that order.
fn poke_wavsynth(b: &mut Vec<u8>, slot: usize) {
    let p = 0x13A3E + 215 * slot;
    b[p] = 0x00; // kind: wavsynth
    b[p + 1] = b'S';
    b[p + 2] = b'Y';
    b[p + 3] = b'N';
    b[p + 4] = b'1';
    b[p + 13] = 0x01; // transpose bit set, EQ 0
    b[p + 14] = 0x01; // table tick
    b[p + 15] = 0x10; // volume
    b[p + 18] = 0x00; // shape
    b[p + 19] = 0x20; // size
    b[p + 32] = 0xD0; // mixer reverb send
    b[p + 63] = 0x01; // AHD envelope, destination 1
    b[p + 64] = 0x40;
    b[p + 69] = 0x12; // ADSR envelope, destination 2
    b[p + 75] = 0x23; // drum envelope, destination 3
    b[p + 81] = 0x34; // LFO, destination 4
    b[p + 83] = 0x01; // LFO shape: SIN
    b[p + 84] = 0x01; // LFO trigger: RETRIG
}

fn parse(b: &Vec<u8>) -> Song {
    let mut r = Reader::new(b.clone());
    Song::read_from_reader(&mut r).expect("song should parse")
}

#[test]
fn parse_empty_v4_song() {
    let b = empty_song_buffer_v4();
    let song = parse(&b);
    assert_eq!(song.version.major, 4);
    assert_eq!(song.version.minor, 0);
    assert_eq!(song.phrases.len(), 255);
    assert_eq!(song.chains.len(), 255);
    assert_eq!(song.instruments.len(), 128);
    assert_eq!(song.tables.len(), 256);
    assert_eq!(song.eqs.len(), 32);
    assert_eq!(song.scales.len(), 16);
    assert!(song.instruments.iter().all(|i| i.is_empty()));
}

#[test]
fn song_too_short_is_error() {
    let b = vec![0u8; 100];
    let mut r = Reader::new(b);
    assert!(Song::read_from_reader(&mut r).is_err());
}

/// A format 2.5 song needs bytes exactly up to the end of the scale
/// section, and not one more.
#[test]
fn song_length_floor_at_scale_end() {
    let make = |len: usize| {
        let mut b = vec![0u8; len];
        b[10] = 5 << 4; // minor 5
        b[11] = 2; // major 2
        for i in 0..128 {
            b[0x13A3E + 215 * i] = 0xFF;
        }
        b
    };
    let mut r = Reader::new(make(0x1AD1E));
    assert!(Song::read_from_reader(&mut r).is_ok());
    let mut r = Reader::new(make(0x1AD1D));
    assert!(Song::read_from_reader(&mut r).is_err());
}

#[test]
fn song_header_fields() {
    let mut b = empty_song_buffer_v4();
    // directory "/Songs/", name "TEST"
    let dir = b"/Songs/";
    for (i, c) in dir.iter().enumerate() {
        b[14 + i] = *c;
    }
    b[142] = 0x0C; // transpose
    // tempo 120.0 as little-endian IEEE-754 bits
    b[143] = 0x00;
    b[144] = 0x00;
    b[145] = 0xF0;
    b[146] = 0x42;
    b[147] = 0x02; // quantize
    let name = b"TEST";
    for (i, c) in name.iter().enumerate() {
        b[148 + i] = *c;
    }
    let song = parse(&b);
    assert_eq!(song.directory, b"/Songs/".to_vec());
    assert_eq!(song.transpose, 0x0C);
    assert_eq!(song.tempo, 0x42F00000);
    assert_eq!(f32::from_bits(song.tempo), 120.0);
    assert_eq!(song.quantize, 0x02);
    assert_eq!(song.name, b"TEST".to_vec());
}

/// Parsing a fixture whose instrument slot 1 is a wave synthesizer must
/// reproduce exactly the stored reverb send and the modulator kind
/// sequence AHD, ADSR, Drum, LFO.
#[test]
fn wavsynth_fixture_scenario() {
    let mut b = empty_song_buffer_v4();
    poke_wavsynth(&mut b, 1);
    let song = parse(&b);
    assert!(matches!(song.instruments[0], Instrument::Empty));
    match &song.instruments[1] {
        Instrument::WavSynth(s) => {
            assert_eq!(s.transpose, true);
            assert_eq!(s.size, 0x20);
            assert_eq!(s.synth_params.mixer_reverb, 0xD0);
            assert!(matches!(s.synth_params.mods[0], Mod::AHDEnv(_)));
            assert!(matches!(s.synth_params.mods[1], Mod::ADSREnv(_)));
            assert!(matches!(s.synth_params.mods[2], Mod::DrumEnv(_)));
            assert!(matches!(s.synth_params.mods[3], Mod::LFO(_)));
            match &s.synth_params.mods[0] {
                Mod::AHDEnv(e) => {
                    assert_eq!(e.dest, 1);
                    assert_eq!(e.amount, 0x40);
                }
                _ => panic!("first modulator should be an AHD envelope"),
            }
        }
        _ => panic!("slot 1 should be a wavsynth"),
    }
}

/// Round trip: a parsed format 4.0 song serialized back into its own
/// buffer re-parses to the same value, field for field.
#[test]
fn song_round_trip() {
    let mut b = empty_song_buffer_v4();
    poke_wavsynth(&mut b, 1);
    // a phrase, a chain and a grid cell referencing them
    let ph = 0xAEE + 144 * 2;
    b[ph] = 0x3C; // note
    b[ph + 1] = 0x64; // velocity
    b[ph + 2] = 0x01; // instrument 1
    let ch = 0x9A5E + 32 * 12;
    b[ch] = 0x02; // phrase 2
    b[ch + 1] = 0x05; // transpose
    b[0x2EE] = 12; // grid references chain 12
    // an EQ record
    let eqp = 0x1AD5E + 18 * 3;
    b[eqp] = 0x21;
    b[eqp + 4] = 0x7F;

    let song = parse(&b);
    let mut w = Writer::new(b.clone());
    song.write(&mut w).expect("format 4.0 song should serialize");
    let b2 = w.finish();
    let song2 = parse(&b2);
    assert_eq!(song2, song);
}

/// Serializing a pre-4.0 song is refused and leaves the buffer alone.
#[test]
fn write_refuses_old_versions() {
    let mut b = empty_song_buffer_v4();
    b[11] = 3; // major 3
    let song = parse(&b);
    let mut w = Writer::new(b.clone());
    assert!(song.write(&mut w).is_err());
    assert_eq!(w.finish(), b);
}

#[test]
fn invalid_instrument_kind_is_error() {
    let mut b = empty_song_buffer_v4();
    b[0x13A3E] = 0x07; // unknown instrument kind
    let mut r = Reader::new(b);
    assert!(Song::read_from_reader(&mut r).is_err());
}

#[test]
fn invalid_limit_type_is_error() {
    let mut b = empty_song_buffer_v4();
    poke_wavsynth(&mut b, 1);
    let p = 0x13A3E + 215;
    b[p + 27] = 0x08; // limiter byte out of range
    let mut r = Reader::new(b);
    assert!(Song::read_from_reader(&mut r).is_err());
}

#[test]
fn invalid_wavsynth_shape_is_error() {
    let mut b = empty_song_buffer_v4();
    poke_wavsynth(&mut b, 1);
    let p = 0x13A3E + 215;
    b[p + 18] = 200; // shape byte out of range
    let mut r = Reader::new(b);
    assert!(Song::read_from_reader(&mut r).is_err());
}

#[test]
fn hypersynth_requires_version_three() {
    let mut b = empty_song_buffer_v4();
    b[11] = 2; // major 2: no hypersynth yet
    b[10] = 5 << 4; // minor 5
    b[0x13A3E] = 0x05;
    let mut r = Reader::new(b);
    assert!(Song::read_from_reader(&mut r).is_err());
}

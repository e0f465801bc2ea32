//! Per-kind instrument record tests: every kind parses from its 215-byte
//! record and survives a serialize/parse round trip.

use m8_files::instruments::{Instrument, InstrumentWithEq};
use m8_files::instruments::common::{LimitType, TranspEq};
use m8_files::instruments::fmsynth::FmAlgo;
use m8_files::reader::Reader;
use m8_files::version::Version;
use m8_files::writer::Writer;

const V40: Version = Version { major: 4, minor: 0, patch: 0 };

/// A zeroed record with the given kind byte and a short name.
fn base_record(kind: u8) -> Vec<u8> {
    let mut b = vec![0u8; 215];
    b[0] = kind;
    b[1] = b'A';
    b[2] = b'B';
    b
}

fn parse_record(b: &Vec<u8>) -> Instrument {
    let mut r = Reader::new(b.clone());
    Instrument::from_reader(&mut r, 0, V40).expect("record should parse")
}

fn round_trip(inst: &Instrument) -> Instrument {
    let mut w = Writer::new(vec![0u8; 215]);
    inst.write(V40, &mut w);
    let mut r = Reader::new(w.finish());
    Instrument::from_reader(&mut r, 0, V40).expect("rewritten record should parse")
}

#[test]
fn wavsynth_record_round_trip() {
    let mut b = base_record(0x00);
    b[19] = 0x20; // size
    b[32] = 0xD0; // reverb send
    let inst = parse_record(&b);
    match &inst {
        Instrument::WavSynth(ws) => {
            assert_eq!(ws.name, b"AB".to_vec());
            assert_eq!(ws.size, 0x20);
        }
        _ => panic!("kind byte zero should parse as a wavsynth"),
    }
    assert_eq!(round_trip(&inst), inst);
}

#[test]
fn macrosynth_record_round_trip() {
    let mut b = base_record(0x01);
    b[19] = 0x11; // timbre
    let inst = parse_record(&b);
    match &inst {
        Instrument::MacroSynth(ms) => assert_eq!(ms.timbre, 0x11),
        _ => panic!("kind byte one should parse as a macrosynth"),
    }
    assert_eq!(round_trip(&inst), inst);
}

#[test]
fn sampler_record_round_trip() {
    let mut b = base_record(0x02);
    b[19] = 0x05; // slice
    let path = b"/Samples/kick.wav";
    for (i, c) in path.iter().enumerate() {
        b[0x57 + i] = *c;
    }
    let inst = parse_record(&b);
    match &inst {
        Instrument::Sampler(s) => {
            assert_eq!(s.slice, 0x05);
            assert_eq!(s.sample_path, b"/Samples/kick.wav".to_vec());
        }
        _ => panic!("kind byte two should parse as a sampler"),
    }
    assert_eq!(round_trip(&inst), inst);
}

#[test]
fn midi_out_record_round_trip() {
    let mut b = base_record(0x03);
    b[13] = 0x01; // transpose flag
    b[15] = 0x02; // port
    b[22] = 0x07; // first custom CC number
    let inst = parse_record(&b);
    match &inst {
        Instrument::MIDIOut(mo) => {
            assert!(mo.transpose);
            assert_eq!(mo.port, 0x02);
            assert_eq!(mo.custom_cc.len(), 10);
            assert_eq!(mo.custom_cc[0].number, 0x07);
        }
        _ => panic!("kind byte three should parse as a MIDI out"),
    }
    assert_eq!(round_trip(&inst), inst);
}

#[test]
fn fmsynth_record_round_trip() {
    let mut b = base_record(0x04);
    b[18] = 0x03; // algorithm
    b[19] = 0x06; // operator one waveform: TRI
    b[23] = 0x40; // operator one ratio
    let inst = parse_record(&b);
    match &inst {
        Instrument::FMSynth(fs) => {
            assert_eq!(fs.algo.id(), 0x03);
            assert_eq!(fs.operators.len(), 4);
            assert_eq!(fs.operators[0].ratio, 0x40);
        }
        _ => panic!("kind byte four should parse as an FM synth"),
    }
    assert_eq!(round_trip(&inst), inst);
}

#[test]
fn hypersynth_record_round_trip() {
    let mut b = base_record(0x05);
    b[18] = 0x01; // first default chord note
    b[24] = 0x3C; // seventh default chord note
    b[25] = 0xFF; // scale
    let inst = parse_record(&b);
    match &inst {
        Instrument::HyperSynth(hs) => {
            assert_eq!(hs.scale, 0xFF);
            assert_eq!(hs.default_chord[0], 0x01);
            assert_eq!(hs.default_chord[6], 0x3C);
            assert_eq!(hs.chords.len(), 16);
        }
        _ => panic!("kind byte five should parse as a hypersynth"),
    }
    assert_eq!(round_trip(&inst), inst);
}

#[test]
fn external_record_round_trip() {
    let mut b = base_record(0x06);
    b[23] = 1; // CC A number
    b[25] = 2; // CC B number
    b[29] = 4; // CC D number
    let inst = parse_record(&b);
    match &inst {
        Instrument::External(ex) => {
            assert_eq!(ex.cca.number, 1);
            assert_eq!(ex.ccb.number, 2);
            assert_eq!(ex.ccd.number, 4);
        }
        _ => panic!("kind byte six should parse as an external instrument"),
    }
    assert_eq!(round_trip(&inst), inst);
}

#[test]
fn empty_record_round_trip() {
    let b = base_record(0xFF);
    let inst = parse_record(&b);
    assert!(inst.is_empty());
    assert_eq!(round_trip(&inst), Instrument::Empty);
}

#[test]
fn instrument_name_accessors() {
    let mut inst = parse_record(&base_record(0x00));
    assert_eq!(inst.name().unwrap(), &b"AB".to_vec());
    inst.set_name(b"LEAD".to_vec());
    assert_eq!(inst.name().unwrap(), &b"LEAD".to_vec());
    assert_eq!(inst.equ(), Some(0));
    inst.set_eq(9);
    assert_eq!(inst.equ(), Some(9));
    let none = parse_record(&base_record(0xFF));
    assert!(none.name().is_none());
    assert!(none.equ().is_none());
}

#[test]
fn transp_eq_packing() {
    let te = TranspEq::from_version(V40, 0x0B);
    assert!(te.transpose);
    assert_eq!(te.eq, 5);
    assert_eq!(te.to_byte(), 0x0B);
    let v41 = Version { major: 4, minor: 1, patch: 0 };
    let te41 = TranspEq::from_version(v41, 0x0B);
    assert!(te41.transpose);
    assert_eq!(te41.eq, 0);
}

#[test]
fn limit_and_algo_validation() {
    assert!(LimitType::try_from(7).is_ok());
    assert!(LimitType::try_from(8).is_err());
    assert_eq!(LimitType::try_from(3).unwrap().id(), 3);
    assert!(FmAlgo::try_from(11).is_ok());
    assert!(FmAlgo::try_from(12).is_err());
}

#[test]
fn standalone_instrument_file() {
    // A version block, a record, and padding up to the 4.1 EQ offset.
    let mut b = vec![0u8; 0x165 + 18];
    b[10] = 1 << 4; // minor 1
    b[11] = 4; // major 4
    b[14] = 0x00; // wavsynth record starts after the version block
    b[15] = b'W';
    let mut r = Reader::new(b);
    let InstrumentWithEq { instrument, eq } =
        Instrument::read_from_reader(&mut r).expect("file should parse");
    match instrument {
        Instrument::WavSynth(ws) => assert_eq!(ws.name, b"W".to_vec()),
        _ => panic!("the record should parse as a wavsynth"),
    }
    assert!(eq.is_some());
}

#[test]
fn standalone_instrument_file_too_short() {
    let b = vec![0u8; 100];
    let mut r = Reader::new(b);
    assert!(Instrument::read_from_reader(&mut r).is_err());
}

//! Remapping engine tests: slot stability, dedup idempotence, exhaustion,
//! and the in-place renumbering mode.

use m8_files::instruments::Instrument;
use m8_files::reader::Reader;
use m8_files::remapper::{try_allocate, Remapper};
use m8_files::songs::Song;

const V4_BUFFER_SIZE: usize = 0x1B01E;

fn empty_song_buffer_v4() -> Vec<u8> {
    let mut b = vec![0u8; V4_BUFFER_SIZE];
    b[11] = 4;
    for k in 0x2EE..0xAEE {
        b[k] = 0xFF;
    }
    for i in 0..(255 * 16) {
        let p = 0xAEE + 9 * i;
        b[p] = 0xFF;
        b[p + 1] = 0xFF;
        b[p + 2] = 0xFF;
        b[p + 3] = 0xFF;
        b[p + 5] = 0xFF;
        b[p + 7] = 0xFF;
    }
    for i in 0..(255 * 16) {
        let p = 0x9A5E + 2 * i;
        b[p] = 0xFF;
    }
    for i in 0..(256 * 16) {
        let p = 0xBA3E + 8 * i;
        b[p + 1] = 0xFF;
        b[p + 2] = 0xFF;
        b[p + 4] = 0xFF;
        b[p + 6] = 0xFF;
    }
    for i in 0..128 {
        b[0x13A3E + 215 * i] = 0xFF;
    }
    b
}

fn poke_wavsynth(b: &mut Vec<u8>, slot: usize) {
    let p = 0x13A3E + 215 * slot;
    b[p] = 0x00;
    b[p + 1] = b'S';
    b[p + 13] = 0x01;
    b[p + 32] = 0xD0;
    b[p + 63] = 0x01;
    b[p + 69] = 0x12;
    b[p + 75] = 0x23;
    b[p + 81] = 0x34;
    b[p + 83] = 0x01;
    b[p + 84] = 0x01;
}

/// Wire chain `chain` to phrase `phrase` to instrument `slot`.
fn poke_reference(b: &mut Vec<u8>, chain: usize, phrase: usize, slot: u8) {
    let ch = 0x9A5E + 32 * chain;
    b[ch] = phrase as u8;
    b[ch + 1] = 0;
    let ph = 0xAEE + 144 * phrase;
    b[ph] = 0x3C;
    b[ph + 1] = 0x64;
    b[ph + 2] = slot;
}

fn parse(b: &Vec<u8>) -> Song {
    let mut r = Reader::new(b.clone());
    Song::read_from_reader(&mut r).expect("song should parse")
}

#[test]
fn try_allocate_prefers_previous_slot() {
    let state = vec![true, false, true, false, false];
    assert_eq!(try_allocate(&state, 3), Some(3));
    // Previous slot used: first free slot at or above it.
    assert_eq!(try_allocate(&state, 2), Some(3));
    // Nothing free above: first free slot anywhere.
    let state = vec![false, true, true];
    assert_eq!(try_allocate(&state, 2), Some(0));
    // Everything used: no slot.
    let state = vec![true, true];
    assert_eq!(try_allocate(&state, 1), None);
}

/// Slot stability: when instrument slot 5 is free in the destination, a
/// source instrument numbered 5 keeps slot 5.
#[test]
fn transplant_keeps_free_slot_number() {
    let mut fb = empty_song_buffer_v4();
    poke_wavsynth(&mut fb, 5);
    poke_reference(&mut fb, 20, 3, 5);
    let from = parse(&fb);
    let to = parse(&empty_song_buffer_v4());

    let mapping = Remapper::create(&from, &to, &vec![20]).expect("mapping should exist");
    assert_eq!(mapping.instrument_mapping.mapping[5], 5);
    assert_eq!(mapping.instrument_mapping.to_move, vec![5]);
    assert_eq!(mapping.out_chain(20), 20);
}

/// Dedup idempotence: transplanting the same chain twice produces an
/// identical mapping the second time, with nothing left to move.
#[test]
fn transplant_twice_is_idempotent() {
    let mut fb = empty_song_buffer_v4();
    poke_wavsynth(&mut fb, 1);
    poke_reference(&mut fb, 12, 2, 1);
    let from = parse(&fb);
    let mut to = parse(&empty_song_buffer_v4());

    let first = Remapper::create(&from, &to, &vec![12]).expect("first mapping should exist");
    first.apply(&from, &mut to);
    assert!(matches!(to.instruments[1], Instrument::WavSynth(_)));

    let second = Remapper::create(&from, &to, &vec![12]).expect("second mapping should exist");
    assert_eq!(second.eq_mapping.to_move.len(), 0);
    assert_eq!(second.instrument_mapping.to_move.len(), 0);
    assert_eq!(second.phrase_mapping.to_move.len(), 0);
    assert_eq!(second.chain_mapping.to_move.len(), 0);
    assert_eq!(second.chain_mapping.mapping, first.chain_mapping.mapping);
    assert_eq!(second.instrument_mapping.mapping, first.instrument_mapping.mapping);
    assert_eq!(second.phrase_mapping.mapping, first.phrase_mapping.mapping);
    assert_eq!(second.eq_mapping.mapping, first.eq_mapping.mapping);
}

/// Exhaustion: with every destination chain slot occupied by a
/// non-matching chain, a transplant reports an error and the destination
/// is untouched.
#[test]
fn transplant_into_full_song_fails_cleanly() {
    let mut fb = empty_song_buffer_v4();
    poke_wavsynth(&mut fb, 1);
    poke_reference(&mut fb, 12, 2, 1);
    let from = parse(&fb);

    let mut tb = empty_song_buffer_v4();
    for c in 0..255 {
        let ch = 0x9A5E + 32 * c;
        tb[ch] = 0xFE; // phrase reference outside any transplant
        tb[ch + 1] = c as u8; // make every chain distinct
    }
    let to = parse(&tb);
    let to_before = to.clone();

    let result = Remapper::create(&from, &to, &vec![12]);
    assert!(result.is_err());
    assert_eq!(to, to_before);
}

/// Renumbering within one song moves the entity and clears the old slot.
#[test]
fn renumber_moves_instrument() {
    let mut b = empty_song_buffer_v4();
    poke_wavsynth(&mut b, 4);
    poke_reference(&mut b, 7, 9, 4);
    let mut song = parse(&b);

    let mut remapper = Remapper::default();
    remapper.instrument_mapping.mapping[4] = 10;
    remapper.instrument_mapping.to_move.push(4);
    remapper.renumber(&mut song);

    assert!(matches!(song.instruments[4], Instrument::Empty));
    assert!(matches!(song.instruments[10], Instrument::WavSynth(_)));
    // the phrase now references the new slot
    assert_eq!(song.phrases[9].steps[0].instrument, 10);
}

/// A renumbering with no EQ moves also works on songs from before format
/// 4.0, whose EQ section is empty.
#[test]
fn renumber_pre_four_song() {
    let mut b = empty_song_buffer_v4();
    b[11] = 3; // major 3: no EQ section
    poke_wavsynth(&mut b, 4);
    poke_reference(&mut b, 7, 9, 4);
    let mut song = parse(&b);
    assert_eq!(song.eqs.len(), 0);

    let mut remapper = Remapper::default();
    remapper.instrument_mapping.mapping[4] = 10;
    remapper.instrument_mapping.to_move.push(4);
    remapper.renumber(&mut song);

    assert!(matches!(song.instruments[4], Instrument::Empty));
    assert!(matches!(song.instruments[10], Instrument::WavSynth(_)));
    assert_eq!(song.phrases[9].steps[0].instrument, 10);
}

/// The identity plan leaves a song unchanged but for cleared bookkeeping.
#[test]
fn identity_renumber_preserves_song() {
    let mut b = empty_song_buffer_v4();
    poke_wavsynth(&mut b, 1);
    poke_reference(&mut b, 12, 2, 1);
    let mut song = parse(&b);
    let before = song.clone();
    let remapper = Remapper::default();
    remapper.renumber(&mut song);
    assert_eq!(song, before);
}

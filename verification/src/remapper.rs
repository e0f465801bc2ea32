//! Cross-song remapping engine: computes a consistent, collision-free slot
//! reassignment so that a chain and everything it transitively references
//! (phrases, instruments, EQs) can be copied from one song into another, or
//! renumbered within one song, with structural deduplication.
//!
//! All mutation is deferred: `Remapper::create` only computes mapping
//! tables, and a failed allocation aborts before any song is touched.

use crate::eq::Equ;
use crate::instruments::Instrument;
use crate::songs::{
    Chain, ChainStep, Phrase, Step, N_CHAINS, N_INSTRUMENTS, N_INSTRUMENT_EQS, N_PHRASES,
    N_TABLES,
};
use vstd::prelude::*;

verus! {

/// Kind of entity a remapping move concerns.
#[derive(PartialEq, Eq, Structural, Copy, Clone, Debug)]
pub enum MoveKind {
    EQ,
    INS,
    PHR,
    CHN,
    TBL,
}

impl Default for MoveKind {
    fn default() -> (r: Self)
        ensures
            r == MoveKind::EQ,
    {
        MoveKind::EQ
    }
}

/// Consumer of a remapping description, implemented by callers that want to
/// display or log the planned moves.
pub trait RemapperDescriptorBuilder {
    /// Record that the entity of kind `kind` moves from slot `from` to slot
    /// `to`.
    fn moved(&mut self, kind: MoveKind, from: usize, to: usize);
}

/// The identity mapping over `count` slots, shifted by `offset`.
pub open spec fn spec_identity_mapping(count: int, offset: u8) -> Seq<u8> {
    Seq::new(count as nat, |i: int| (i + offset) as u8)
}

/// Build a slot mapping that sends each slot to itself (plus `offset`).
fn make_mapping(count: usize, offset: u8) -> (r: Vec<u8>)
    requires
        count + offset <= 256,
    ensures
        r@.len() == count,
        r@ == spec_identity_mapping(count as int, offset),
    {
    let mut arr: Vec<u8> = Vec::new();
    let mut i: usize = 0;
    while i < count
        invariant
            count + offset <= 256,
            i <= count,
            arr@.len() == i,
            forall|j: int| 0 <= j < i ==> arr@[j] == (j + offset) as u8,
        decreases count - i,
    {
        arr.push((i as u8) + offset);
        i = i + 1;
    }
    proof {
        assert(arr@ =~= spec_identity_mapping(count as int, offset));
    }
    arr
}

/// Slot mapping for EQs: where each source EQ lands in the destination,
/// and which source slots actually need their data moved.
pub struct EqMapping {
    /// Mapping from the "from" song EQ index to the "to" song EQ index.
    pub mapping: Vec<u8>,
    /// EQs to be moved during the remapping, as indices into the "from"
    /// song.
    pub to_move: Vec<u8>,
}

impl EqMapping {
    /// Report every planned EQ move.
    pub fn describe<T: RemapperDescriptorBuilder>(&self, builder: &mut T)
        requires
            self.mapping@.len() == 32,
            forall|i: int| 0 <= i < self.to_move@.len() ==> #[trigger] self.to_move@[i] < 32,
    {
        let n = self.to_move.len();
        let mut i: usize = 0;
        while i < n
            invariant
                n == self.to_move@.len(),
                self.mapping@.len() == 32,
                forall|k: int| 0 <= k < n ==> #[trigger] self.to_move@[k] < 32,
                i <= n,
            decreases n - i,
        {
            let ix = self.to_move[i];
            let ixu = ix as usize;
            builder.moved(MoveKind::EQ, ixu, self.mapping[ixu] as usize);
            i = i + 1;
        }
    }
}

impl Default for EqMapping {
    /// The identity mapping with nothing to move.
    fn default() -> (r: Self)
        ensures
            r.mapping@ == spec_identity_mapping(32, 0),
            r.to_move@.len() == 0,
    {
        Self { mapping: make_mapping(N_INSTRUMENT_EQS, 0), to_move: Vec::new() }
    }
}

/// Slot mapping for instruments.
pub struct InstrumentMapping {
    /// Mapping from the "from" song instrument index to the "to" song
    /// instrument index.
    pub mapping: Vec<u8>,
    /// Instruments to be moved during the remapping, as indices into the
    /// "from" song.
    pub to_move: Vec<u8>,
}

impl InstrumentMapping {
    /// Report every planned instrument move.
    pub fn describe<T: RemapperDescriptorBuilder>(&self, builder: &mut T)
        requires
            self.mapping@.len() == 128,
            forall|i: int| 0 <= i < self.to_move@.len() ==> #[trigger] self.to_move@[i] < 128,
    {
        let n = self.to_move.len();
        let mut i: usize = 0;
        while i < n
            invariant
                n == self.to_move@.len(),
                self.mapping@.len() == 128,
                forall|k: int| 0 <= k < n ==> #[trigger] self.to_move@[k] < 128,
                i <= n,
            decreases n - i,
        {
            let ix = self.to_move[i];
            let ixu = ix as usize;
            builder.moved(MoveKind::INS, ixu, self.mapping[ixu] as usize);
            i = i + 1;
        }
    }
}

impl Default for InstrumentMapping {
    /// The identity mapping with nothing to move.
    fn default() -> (r: Self)
        ensures
            r.mapping@ == spec_identity_mapping(128, 0),
            r.to_move@.len() == 0,
    {
        Self { mapping: make_mapping(N_INSTRUMENTS, 0), to_move: Vec::new() }
    }
}

/// Slot mapping for tables.
pub struct TableMapping {
    /// Mapping from the "from" song table index to the "to" song table
    /// index.
    pub mapping: Vec<u8>,
    /// Tables to be moved during remapping.
    pub to_move: Vec<u8>,
}

impl TableMapping {
    /// Report every planned table move.
    pub fn describe<T: RemapperDescriptorBuilder>(&self, builder: &mut T)
        requires
            self.mapping@.len() == 256,
    {
        let n = self.to_move.len();
        let mut i: usize = 0;
        while i < n
            invariant
                n == self.to_move@.len(),
                self.mapping@.len() == 256,
                i <= n,
            decreases n - i,
        {
            let ix = self.to_move[i];
            let ixu = ix as usize;
            builder.moved(MoveKind::TBL, ixu, self.mapping[ixu] as usize);
            i = i + 1;
        }
    }

    /// Record that table `from` should move to slot `to`.
    pub fn remap_table(&mut self, from: u8, to: u8)
        requires
            old(self).mapping@.len() == 256,
        ensures
            final(self).mapping@ == old(self).mapping@.update(from as int, to),
            final(self).to_move@ == old(self).to_move@.push(from),
    {
        self.mapping[from as usize] = to;
        self.to_move.push(from);
    }
}

impl Default for TableMapping {
    /// The identity mapping with nothing to move.  Table slots are never
    /// discovered by traversal, so the identity stands until a caller
    /// requests a move explicitly.
    fn default() -> (r: Self)
        ensures
            r.mapping@ == spec_identity_mapping(256, 0),
            r.to_move@.len() == 0,
    {
        Self { mapping: make_mapping(N_TABLES, 0), to_move: Vec::new() }
    }
}

/// Slot mapping for phrases.
pub struct PhraseMapping {
    /// Mapping from the "from" song phrase index to the "to" phrase index.
    pub mapping: Vec<u8>,
    /// Phrases to be moved during the remapping, as indices into the
    /// "from" song.
    pub to_move: Vec<u8>,
}

impl PhraseMapping {
    /// Report every planned phrase move.
    pub fn describe<T: RemapperDescriptorBuilder>(&self, builder: &mut T)
        requires
            self.mapping@.len() == 255,
            forall|i: int| 0 <= i < self.to_move@.len() ==> #[trigger] self.to_move@[i] < 255,
    {
        let n = self.to_move.len();
        let mut i: usize = 0;
        while i < n
            invariant
                n == self.to_move@.len(),
                self.mapping@.len() == 255,
                forall|k: int| 0 <= k < n ==> #[trigger] self.to_move@[k] < 255,
                i <= n,
            decreases n - i,
        {
            let ix = self.to_move[i];
            let ixu = ix as usize;
            builder.moved(MoveKind::PHR, ixu, self.mapping[ixu] as usize);
            i = i + 1;
        }
    }
}

impl Default for PhraseMapping {
    /// The identity mapping with nothing to move.
    fn default() -> (r: Self)
        ensures
            r.mapping@ == spec_identity_mapping(255, 0),
            r.to_move@.len() == 0,
    {
        Self { mapping: make_mapping(N_PHRASES, 0), to_move: Vec::new() }
    }
}

/// Slot mapping for chains.
pub struct ChainMapping {
    /// Mapping from the "from" song chain index to the "to" chain index.
    pub mapping: Vec<u8>,
    /// Chains to be moved during the remapping.
    pub to_move: Vec<u8>,
}

impl ChainMapping {
    /// Report every planned chain move.
    pub fn describe<T: RemapperDescriptorBuilder>(&self, builder: &mut T)
        requires
            self.mapping@.len() == 255,
            forall|i: int| 0 <= i < self.to_move@.len() ==> #[trigger] self.to_move@[i] < 255,
    {
        let n = self.to_move.len();
        let mut i: usize = 0;
        while i < n
            invariant
                n == self.to_move@.len(),
                self.mapping@.len() == 255,
                forall|k: int| 0 <= k < n ==> #[trigger] self.to_move@[k] < 255,
                i <= n,
            decreases n - i,
        {
            let ix = self.to_move[i];
            let ixu = ix as usize;
            builder.moved(MoveKind::CHN, ixu, self.mapping[ixu] as usize);
            i = i + 1;
        }
    }
}

impl Default for ChainMapping {
    /// The identity mapping with nothing to move.
    fn default() -> (r: Self)
        ensures
            r.mapping@ == spec_identity_mapping(255, 0),
            r.to_move@.len() == 0,
    {
        Self { mapping: make_mapping(N_CHAINS, 0), to_move: Vec::new() }
    }
}

} // verus!

verus! {

/// Every mapping table has its full slot count, and every entry and every
/// queued move stays inside its entity's slot range.
pub open spec fn remapper_wf(r: Remapper) -> bool {
    &&& r.eq_mapping.mapping@.len() == 32
    &&& forall|i: int| 0 <= i < 32 ==> #[trigger] r.eq_mapping.mapping@[i] < 32
    &&& forall|i: int|
        0 <= i < r.eq_mapping.to_move@.len() ==> #[trigger] r.eq_mapping.to_move@[i] < 32
    &&& r.instrument_mapping.mapping@.len() == 128
    &&& forall|i: int| 0 <= i < 128 ==> #[trigger] r.instrument_mapping.mapping@[i] < 128
    &&& forall|i: int|
        0 <= i < r.instrument_mapping.to_move@.len()
            ==> #[trigger] r.instrument_mapping.to_move@[i] < 128
    &&& r.phrase_mapping.mapping@.len() == 255
    &&& forall|i: int| 0 <= i < 255 ==> #[trigger] r.phrase_mapping.mapping@[i] < 255
    &&& forall|i: int|
        0 <= i < r.phrase_mapping.to_move@.len() ==> #[trigger] r.phrase_mapping.to_move@[i] < 255
    &&& r.chain_mapping.mapping@.len() == 255
    &&& forall|i: int| 0 <= i < 255 ==> #[trigger] r.chain_mapping.mapping@[i] < 255
    &&& forall|i: int|
        0 <= i < r.chain_mapping.to_move@.len() ==> #[trigger] r.chain_mapping.to_move@[i] < 255
    &&& r.table_mapping.mapping@.len() == 256
    &&& forall|i: int|
        0 <= i < r.table_mapping.to_move@.len() ==> #[trigger] r.table_mapping.to_move@[i] < 256
}

/// The full remapping plan: one mapping table per entity kind, applied in
/// strict EQ, instrument, phrase, chain order.
pub struct Remapper {
    pub eq_mapping: EqMapping,
    pub instrument_mapping: InstrumentMapping,
    pub table_mapping: TableMapping,
    pub phrase_mapping: PhraseMapping,
    pub chain_mapping: ChainMapping,
}

impl Default for Remapper {
    /// The identity plan: every slot keeps its number and nothing moves.
    fn default() -> (r: Self)
        ensures
            remapper_wf(r),
            r.eq_mapping.to_move@.len() == 0,
            r.instrument_mapping.to_move@.len() == 0,
            r.phrase_mapping.to_move@.len() == 0,
            r.chain_mapping.to_move@.len() == 0,
            r.table_mapping.to_move@.len() == 0,
    {
        let r = Self {
            eq_mapping: Default::default(),
            instrument_mapping: Default::default(),
            table_mapping: Default::default(),
            phrase_mapping: Default::default(),
            chain_mapping: Default::default(),
        };
        proof {
            assert forall|i: int| 0 <= i < 32 implies #[trigger] r.eq_mapping.mapping@[i] < 32 by {
                assert(r.eq_mapping.mapping@[i] == (i + 0) as u8);
            }
            assert forall|i: int| 0 <= i < 128 implies #[trigger] r.instrument_mapping.mapping@[i]
                < 128 by {
                assert(r.instrument_mapping.mapping@[i] == (i + 0) as u8);
            }
            assert forall|i: int| 0 <= i < 255 implies #[trigger] r.phrase_mapping.mapping@[i]
                < 255 by {
                assert(r.phrase_mapping.mapping@[i] == (i + 0) as u8);
            }
            assert forall|i: int| 0 <= i < 255 implies #[trigger] r.chain_mapping.mapping@[i]
                < 255 by {
                assert(r.chain_mapping.mapping@[i] == (i + 0) as u8);
            }
        }
        r
    }
}

/// Whether some step of a chain row group references phrase `p`.
pub open spec fn chain_refs_phrase(steps: Seq<ChainStep>, p: int) -> bool {
    exists|s: int| 0 <= s < 16 && (#[trigger] steps[s]).phrase == p
}

/// Whether phrase `p` is referenced by some chain of the request set.
pub open spec fn phrase_requested(from_song: crate::songs::Song, ids: Seq<u8>, p: int) -> bool {
    exists|k: int|
        0 <= k < ids.len() && (#[trigger] ids[k]) < 255 && chain_refs_phrase(
            from_song.chains@[ids[k] as int].steps@,
            p,
        )
}

/// Whether some step of a phrase row group references instrument `i`.
pub open spec fn phrase_refs_instr(steps: Seq<crate::songs::Step>, i: int) -> bool {
    exists|t: int| 0 <= t < 16 && (#[trigger] steps[t]).instrument == i
}

/// Whether instrument `i` is transitively reachable from the request set:
/// some requested chain references a phrase whose steps reference `i`.
pub open spec fn instr_requested(from_song: crate::songs::Song, ids: Seq<u8>, i: int) -> bool {
    exists|p: int|
        0 <= p < 255 && #[trigger] phrase_requested(from_song, ids, p) && phrase_refs_instr(
            from_song.phrases@[p].steps@,
            i,
        )
}

/// Whether EQ slot `e` is referenced by some instrument that is itself
/// reachable from the request set.
pub open spec fn eq_requested(from_song: crate::songs::Song, ids: Seq<u8>, e: int) -> bool {
    exists|i: int|
        0 <= i < 128 && #[trigger] instr_requested(from_song, ids, i)
            && from_song.instruments@[i].spec_equ() == Some(e as u8)
}

/// An instrument with its EQ reference (when it points at an
/// instrument-assignable slot) replaced by `enew`.
pub open spec fn inst_rewritten(inst: Instrument, enew: u8) -> Instrument {
    match inst.spec_equ() {
        Some(e) => if e < 32 {
            inst.spec_set_eq(enew)
        } else {
            inst
        },
        None => inst,
    }
}

/// What the first allocation pass promises of its mappings: EQ slots and
/// instrument slots outside the reachable set keep their numbers and are
/// never queued; queued moves concern reachable entities only, and land in
/// destination slots that held nothing (no instrument refers to a moved-to
/// EQ slot, and a moved-to instrument slot is empty), pairwise distinctly.
pub open spec fn eq_instr_pass_ok(
    from_song: crate::songs::Song,
    to_song: crate::songs::Song,
    ids: Seq<u8>,
    em: EqMapping,
    im: InstrumentMapping,
) -> bool {
    &&& em.mapping@.len() == 32
    &&& forall|i: int| 0 <= i < 32 ==> #[trigger] em.mapping@[i] < 32
    &&& forall|i: int| 0 <= i < em.to_move@.len() ==> #[trigger] em.to_move@[i] < 32
    &&& im.mapping@.len() == 128
    &&& forall|i: int| 0 <= i < 128 ==> #[trigger] im.mapping@[i] < 128
    &&& forall|i: int| 0 <= i < im.to_move@.len() ==> #[trigger] im.to_move@[i] < 128
    &&& forall|e: int|
        0 <= e < 32 && !eq_requested(from_song, ids, e) ==> #[trigger] em.mapping@[e] == e
            && !em.to_move@.contains(e as u8)
    &&& forall|j: int|
        0 <= j < em.to_move@.len() ==> eq_requested(from_song, ids, (#[trigger] em.to_move@[
            j]) as int)
    &&& forall|j: int|
        0 <= j < em.to_move@.len() ==> forall|i: int|
            0 <= i < 128 ==> (#[trigger] to_song.instruments@[i]).spec_equ() != Some(
                em.mapping@[(#[trigger] em.to_move@[j]) as int],
            )
    &&& forall|j1: int, j2: int|
        0 <= j1 < j2 < em.to_move@.len() ==> em.mapping@[#[trigger] em.to_move@[j1] as int]
            != em.mapping@[#[trigger] em.to_move@[j2] as int]
    &&& forall|i: int|
        0 <= i < 128 && !instr_requested(from_song, ids, i) ==> #[trigger] im.mapping@[i] == i
            && !im.to_move@.contains(i as u8)
    &&& forall|j: int|
        0 <= j < im.to_move@.len() ==> instr_requested(
            from_song,
            ids,
            (#[trigger] im.to_move@[j]) as int,
        )
    &&& forall|j: int|
        0 <= j < im.to_move@.len() ==> to_song.instruments@[im.mapping@[(
        #[trigger] im.to_move@[j]) as int] as int] is Empty
    &&& forall|j1: int, j2: int|
        0 <= j1 < j2 < im.to_move@.len() ==> im.mapping@[#[trigger] im.to_move@[j1] as int]
            != im.mapping@[#[trigger] im.to_move@[j2] as int]
    &&& forall|j: int|
        0 <= j < im.to_move@.len() && to_song.instruments@[(#[trigger] im.to_move@[j]) as int]
            is Empty && (forall|j2: int|
            0 <= j2 < j ==> im.mapping@[#[trigger] im.to_move@[j2] as int] != im.to_move@[j])
            ==> im.mapping@[im.to_move@[j] as int] == im.to_move@[j]
}

/// The first allocation pass can fail only on these inputs: a reachable
/// instrument references an EQ that matches none of the destination's
/// instrument-assignable EQs, or some rewriting of a reachable instrument
/// matches no destination instrument.
pub open spec fn eq_instr_pass_exhausted(
    from_song: crate::songs::Song,
    to_song: crate::songs::Song,
    ids: Seq<u8>,
) -> bool {
    ||| exists|i: int|
        0 <= i < 128 && #[trigger] instr_requested(from_song, ids, i) && (match
            from_song.instruments@[i].spec_equ() {
            Some(e) => e < 32 && forall|t: int|
                0 <= t < 32 && t < to_song.eqs@.len() ==> #[trigger] to_song.eqs@[t]
                    != from_song.eqs@[e as int],
            None => false,
        })
    ||| exists|i: int, enew: u8|
        #![trigger inst_rewritten(from_song.instruments@[i], enew)]
        0 <= i < 128 && instr_requested(from_song, ids, i) && forall|t: int|
            0 <= t < 128 ==> !crate::instruments::inst_equiv(
                #[trigger] to_song.instruments@[t],
                inst_rewritten(from_song.instruments@[i], enew),
            )
}

/// The phrase pass can fail only when some referenced phrase, renumbered
/// through the given instrument mapping, matches no destination phrase.
pub open spec fn phrase_pass_exhausted(
    from_song: crate::songs::Song,
    to_song: crate::songs::Song,
    instr_map: Seq<u8>,
    ids: Seq<u8>,
) -> bool {
    exists|p: int|
        0 <= p < 255 && #[trigger] phrase_requested(from_song, ids, p) && forall|t: int|
            0 <= t < 255 ==> (#[trigger] to_song.phrases@[t]).steps@
                != crate::songs::phrase_mapped_steps(from_song.phrases@[p].steps@, instr_map)
}

/// The chain pass can fail only when some requested chain, renumbered
/// through the given phrase mapping, matches no destination chain.
pub open spec fn chain_pass_exhausted(
    from_song: crate::songs::Song,
    to_song: crate::songs::Song,
    phrase_map: Seq<u8>,
    ids: Seq<u8>,
) -> bool {
    exists|i: int|
        0 <= i < ids.len() && (#[trigger] ids[i]) < 255 && forall|t: int|
            0 <= t < 255 ==> (#[trigger] to_song.chains@[t]).steps@
                != crate::songs::chain_mapped_steps(
                from_song.chains@[ids[i] as int].steps@,
                phrase_map,
            )
}

/// What the phrase pass promises of its mapping: every referenced phrase
/// reuses a structurally equal destination phrase or is queued for a move
/// into a slot holding no referenced phrase; unreferenced phrases keep the
/// zero entry; queued moves are referenced phrases with pairwise distinct
/// targets.
pub open spec fn phrase_pass_ok(
    from_song: crate::songs::Song,
    to_song: crate::songs::Song,
    instr_map: Seq<u8>,
    ids: Seq<u8>,
    pm: PhraseMapping,
) -> bool {
    &&& pm.mapping@.len() == 255
    &&& forall|i: int| 0 <= i < 255 ==> #[trigger] pm.mapping@[i] < 255
    &&& forall|i: int| 0 <= i < pm.to_move@.len() ==> #[trigger] pm.to_move@[i] < 255
    &&& forall|p: int|
        0 <= p < 255 && phrase_requested(from_song, ids, p) ==> {
            let mapped = crate::songs::phrase_mapped_steps(
                from_song.phrases@[p].steps@,
                instr_map,
            );
            ||| (to_song.phrases@[(#[trigger] pm.mapping@[p]) as int].steps@ == mapped
                && !pm.to_move@.contains(p as u8))
            ||| (pm.to_move@.contains(p as u8) && forall|t: int|
                0 <= t < 255 ==> (#[trigger] to_song.phrases@[t]).steps@ != mapped)
        }
    &&& forall|p: int|
        0 <= p < 255 && !phrase_requested(from_song, ids, p) ==> #[trigger] pm.mapping@[p] == 0
            && !pm.to_move@.contains(p as u8)
    &&& forall|j: int|
        0 <= j < pm.to_move@.len() ==> {
            let slot = pm.mapping@[(#[trigger] pm.to_move@[j]) as int] as int;
            !((exists|c: int|
                0 <= c < 255 && chain_refs_phrase((#[trigger] to_song.chains@[c]).steps@, slot))
                || !phrase_is_empty(to_song.phrases@[slot]))
        }
    &&& forall|j1: int, j2: int|
        0 <= j1 < j2 < pm.to_move@.len() ==> pm.mapping@[#[trigger] pm.to_move@[j1] as int]
            != pm.mapping@[#[trigger] pm.to_move@[j2] as int]
    &&& forall|j: int|
        0 <= j < pm.to_move@.len() ==> phrase_requested(
            from_song,
            ids,
            (#[trigger] pm.to_move@[j]) as int,
        )
}

/// What the chain pass promises of its mapping, likewise.
pub open spec fn chain_pass_ok(
    from_song: crate::songs::Song,
    to_song: crate::songs::Song,
    phrase_map: Seq<u8>,
    ids: Seq<u8>,
    cm: ChainMapping,
) -> bool {
    &&& cm.mapping@.len() == 255
    &&& forall|i: int| 0 <= i < 255 ==> #[trigger] cm.mapping@[i] < 255
    &&& forall|i: int| 0 <= i < cm.to_move@.len() ==> #[trigger] cm.to_move@[i] < 255
    &&& forall|k: int|
        0 <= k < ids.len() ==> (#[trigger] ids[k]) < 255 ==> {
            let c = ids[k] as int;
            let mapped = crate::songs::chain_mapped_steps(
                from_song.chains@[c].steps@,
                phrase_map,
            );
            ||| (to_song.chains@[cm.mapping@[c] as int].steps@ == mapped && !cm.to_move@.contains(
                c as u8,
            ))
            ||| (cm.to_move@.contains(c as u8) && forall|t: int|
                0 <= t < 255 ==> (#[trigger] to_song.chains@[t]).steps@ != mapped)
        }
    &&& forall|c: int|
        0 <= c < 255 && !ids.contains(c as u8) ==> #[trigger] cm.mapping@[c] == c
            && !cm.to_move@.contains(c as u8)
    &&& forall|j: int|
        0 <= j < cm.to_move@.len() ==> {
            let slot = cm.mapping@[(#[trigger] cm.to_move@[j]) as int] as int;
            !((exists|g: int| 0 <= g < 2048 && to_song.song.steps@[g] == slot) || !chain_is_empty(
                to_song.chains@[slot],
            ))
        }
    &&& forall|j1: int, j2: int|
        0 <= j1 < j2 < cm.to_move@.len() ==> cm.mapping@[#[trigger] cm.to_move@[j1] as int]
            != cm.mapping@[#[trigger] cm.to_move@[j2] as int]
    &&& forall|j: int|
        0 <= j < cm.to_move@.len() ==> ids.contains(#[trigger] cm.to_move@[j])
}

/// A phrase value with every field of every step at its empty sentinel.
pub open spec fn phrase_is_empty(ph: Phrase) -> bool {
    forall|i: int|
        0 <= i < 16 ==> {
            let s = #[trigger] ph.steps@[i];
            s.note.0 == 0xFF && s.velocity == 0xFF && s.instrument == 0xFF && s.fx1.command
                == 0xFF && s.fx2.command == 0xFF && s.fx3.command == 0xFF
        }
}

/// A chain value with every row empty.
pub open spec fn chain_is_empty(c: Chain) -> bool {
    forall|i: int| 0 <= i < 16 ==> (#[trigger] c.steps@[i]).phrase == 0xFF
}

/// Scan the instruments for referenced EQ slots: flag `e` is set exactly
/// when some instrument is attached to EQ `e`.
fn find_referenced_eq(song: &crate::songs::Song) -> (r: Vec<bool>)
    requires
        song.instruments@.len() == 128,
    ensures
        r@.len() == 32,
        forall|e: int|
            0 <= e < 32 ==> (r@[e] <==> exists|i: int|
                0 <= i < 128 && (#[trigger] song.instruments@[i]).spec_equ() == Some(e as u8)),
{
    let mut allocated_eqs: Vec<bool> = Vec::new();
    let mut k: usize = 0;
    while k < 32
        invariant
            k <= 32,
            allocated_eqs@.len() == k,
            forall|e: int| 0 <= e < k ==> !(#[trigger] allocated_eqs@[e]),
        decreases 32 - k,
    {
        allocated_eqs.push(false);
        k = k + 1;
    }
    let mut i: usize = 0;
    while i < 128
        invariant
            song.instruments@.len() == 128,
            i <= 128,
            allocated_eqs@.len() == 32,
            forall|e: int|
                0 <= e < 32 ==> (#[trigger] allocated_eqs@[e] <==> exists|j: int|
                    0 <= j < i && (#[trigger] song.instruments@[j]).spec_equ() == Some(e as u8)),
        decreases 128 - i,
    {
        let ghost prev = allocated_eqs@;
        match song.instruments[i].equ() {
            None => {},
            Some(eq) => {
                let equ = eq as usize;
                if equ < 32 {
                    allocated_eqs[equ] = true;
                }
            },
        }
        proof {
            assert forall|e: int| 0 <= e < 32 implies (#[trigger] allocated_eqs@[e] <==> exists|
                j: int,
            | 0 <= j < i + 1 && (#[trigger] song.instruments@[j]).spec_equ() == Some(e as u8)) by {
                if allocated_eqs@[e] {
                    if prev[e] {
                        let j = choose|j: int|
                            0 <= j < i && (#[trigger] song.instruments@[j]).spec_equ() == Some(
                                e as u8,
                            );
                        assert(0 <= j < i + 1 && song.instruments@[j].spec_equ() == Some(e as u8));
                    } else {
                        assert(song.instruments@[i as int].spec_equ() == Some(e as u8));
                    }
                } else {
                    assert(!prev[e]);
                    assert forall|j: int|
                        0 <= j < i + 1 implies (#[trigger] song.instruments@[j]).spec_equ() != Some(
                        e as u8,
                    ) by {}
                }
            }
        }
        i = i + 1;
    }
    allocated_eqs
}

/// Scan the instruments for occupied slots: flag `i` is set exactly when
/// slot `i` is not empty.
fn find_allocated_instruments(song: &crate::songs::Song) -> (r: Vec<bool>)
    requires
        song.instruments@.len() == 128,
    ensures
        r@.len() == 128,
        forall|i: int| 0 <= i < 128 ==> (#[trigger] r@[i] <==> !(song.instruments@[i] is Empty)),
{
    let mut allocated_instr: Vec<bool> = Vec::new();
    let mut i: usize = 0;
    while i < 128
        invariant
            song.instruments@.len() == 128,
            i <= 128,
            allocated_instr@.len() == i,
            forall|j: int|
                0 <= j < i ==> (#[trigger] allocated_instr@[j] <==> !(song.instruments@[j]
                    is Empty)),
        decreases 128 - i,
    {
        allocated_instr.push(!song.instruments[i].is_empty());
        i = i + 1;
    }
    allocated_instr
}

/// Set the flag of every phrase some step of `steps` references.
fn mark_chain_phrases(flags: &mut Vec<bool>, steps: &Vec<ChainStep>)
    requires
        old(flags)@.len() == 255,
        steps@.len() == 16,
    ensures
        final(flags)@.len() == 255,
        forall|p: int|
            0 <= p < 255 ==> (#[trigger] final(flags)@[p] <==> old(flags)@[p] || chain_refs_phrase(
                steps@,
                p,
            )),
{
    let ghost orig = old(flags)@;
    let mut s: usize = 0;
    while s < 16
        invariant
            flags@.len() == 255,
            steps@.len() == 16,
            s <= 16,
            forall|p: int|
                0 <= p < 255 ==> (#[trigger] flags@[p] <==> orig[p] || exists|t: int|
                    0 <= t < s && (#[trigger] steps@[t]).phrase == p),
        decreases 16 - s,
    {
        let ghost prev = flags@;
        let phrase = steps[s].phrase as usize;
        if phrase < 255 {
            flags[phrase] = true;
        }
        proof {
            assert forall|p: int| 0 <= p < 255 implies (#[trigger] flags@[p] <==> orig[p] || exists|
                t: int,
            | 0 <= t < s + 1 && (#[trigger] steps@[t]).phrase == p) by {
                if flags@[p] {
                    if prev[p] {
                        if !orig[p] {
                            let t = choose|t: int|
                                0 <= t < s && (#[trigger] steps@[t]).phrase == p;
                            assert(0 <= t < s + 1 && steps@[t].phrase == p);
                        }
                    } else {
                        assert(steps@[s as int].phrase == p);
                    }
                }
            }
        }
        s = s + 1;
    }
}

/// Scan the song for phrases in use: flag `p` is set exactly when some
/// chain references phrase `p` or phrase `p` is non-empty.
fn find_referenced_phrases(song: &crate::songs::Song) -> (r: Vec<bool>)
    requires
        song.chains@.len() == 255,
        song.phrases@.len() == 255,
        forall|c: int| 0 <= c < 255 ==> (#[trigger] song.chains@[c]).steps@.len() == 16,
        forall|p: int| 0 <= p < 255 ==> (#[trigger] song.phrases@[p]).steps@.len() == 16,
    ensures
        r@.len() == 255,
        forall|p: int|
            0 <= p < 255 ==> (#[trigger] r@[p] <==> (exists|c: int|
                0 <= c < 255 && chain_refs_phrase((#[trigger] song.chains@[c]).steps@, p))
                || !phrase_is_empty(song.phrases@[p])),
{
    let mut allocated_phrases: Vec<bool> = Vec::new();
    let mut k: usize = 0;
    while k < 255
        invariant
            k <= 255,
            allocated_phrases@.len() == k,
            forall|p: int| 0 <= p < k ==> !(#[trigger] allocated_phrases@[p]),
        decreases 255 - k,
    {
        allocated_phrases.push(false);
        k = k + 1;
    }
    let mut c: usize = 0;
    while c < 255
        invariant
            song.chains@.len() == 255,
            forall|j: int| 0 <= j < 255 ==> (#[trigger] song.chains@[j]).steps@.len() == 16,
            c <= 255,
            allocated_phrases@.len() == 255,
            forall|p: int|
                0 <= p < 255 ==> (#[trigger] allocated_phrases@[p] <==> exists|j: int|
                    0 <= j < c && chain_refs_phrase((#[trigger] song.chains@[j]).steps@, p)),
        decreases 255 - c,
    {
        let ghost prev = allocated_phrases@;
        mark_chain_phrases(&mut allocated_phrases, &song.chains[c].steps);
        proof {
            assert forall|p: int| 0 <= p < 255 implies (#[trigger] allocated_phrases@[p] <==> exists|
                j: int,
            | 0 <= j < c + 1 && chain_refs_phrase((#[trigger] song.chains@[j]).steps@, p)) by {
                if allocated_phrases@[p] {
                    if prev[p] {
                        let j = choose|j: int|
                            0 <= j < c && chain_refs_phrase((#[trigger] song.chains@[j]).steps@, p);
                        assert(0 <= j < c + 1 && chain_refs_phrase(song.chains@[j].steps@, p));
                    } else {
                        assert(chain_refs_phrase(song.chains@[c as int].steps@, p));
                    }
                }
            }
        }
        c = c + 1;
    }
    let mut p: usize = 0;
    while p < 255
        invariant
            song.chains@.len() == 255,
            song.phrases@.len() == 255,
            forall|j: int| 0 <= j < 255 ==> (#[trigger] song.phrases@[j]).steps@.len() == 16,
            p <= 255,
            allocated_phrases@.len() == 255,
            forall|q: int|
                0 <= q < p ==> (#[trigger] allocated_phrases@[q] <==> (exists|j: int|
                    0 <= j < 255 && chain_refs_phrase((#[trigger] song.chains@[j]).steps@, q))
                    || !phrase_is_empty(song.phrases@[q])),
            forall|q: int|
                p <= q < 255 ==> (#[trigger] allocated_phrases@[q] <==> exists|j: int|
                    0 <= j < 255 && chain_refs_phrase((#[trigger] song.chains@[j]).steps@, q)),
        decreases 255 - p,
    {
        if !song.phrases[p].is_empty() {
            allocated_phrases[p] = true;
        }
        p = p + 1;
    }
    allocated_phrases
}

/// Scan the song for chains in use: flag `c` is set exactly when the song
/// grid references chain `c` or chain `c` is non-empty.
fn find_referenced_chains(song: &crate::songs::Song) -> (r: Vec<bool>)
    requires
        song.song.steps@.len() == 2048,
        song.chains@.len() == 255,
        forall|c: int| 0 <= c < 255 ==> (#[trigger] song.chains@[c]).steps@.len() == 16,
    ensures
        r@.len() == 255,
        forall|c: int|
            0 <= c < 255 ==> (#[trigger] r@[c] <==> (exists|k: int|
                0 <= k < 2048 && song.song.steps@[k] == c) || !chain_is_empty(song.chains@[c])),
{
    let mut allocated_chains: Vec<bool> = Vec::new();
    let mut k: usize = 0;
    while k < 255
        invariant
            k <= 255,
            allocated_chains@.len() == k,
            forall|c: int| 0 <= c < k ==> !(#[trigger] allocated_chains@[c]),
        decreases 255 - k,
    {
        allocated_chains.push(false);
        k = k + 1;
    }
    let mut k: usize = 0;
    while k < 2048
        invariant
            song.song.steps@.len() == 2048,
            k <= 2048,
            allocated_chains@.len() == 255,
            forall|c: int|
                0 <= c < 255 ==> (#[trigger] allocated_chains@[c] <==> exists|j: int|
                    0 <= j < k && song.song.steps@[j] == c),
        decreases 2048 - k,
    {
        let ghost prev = allocated_chains@;
        let chain = song.song.steps[k] as usize;
        if chain < 255 {
            allocated_chains[chain] = true;
        }
        proof {
            assert forall|c: int| 0 <= c < 255 implies (#[trigger] allocated_chains@[c] <==> exists|
                j: int,
            | 0 <= j < k + 1 && song.song.steps@[j] == c) by {
                if allocated_chains@[c] {
                    if prev[c] {
                        let j = choose|j: int| 0 <= j < k && song.song.steps@[j] == c;
                        assert(0 <= j < k + 1 && song.song.steps@[j] == c);
                    } else {
                        assert(song.song.steps@[k as int] == c);
                    }
                }
            }
        }
        k = k + 1;
    }
    let mut c: usize = 0;
    while c < 255
        invariant
            song.song.steps@.len() == 2048,
            song.chains@.len() == 255,
            forall|j: int| 0 <= j < 255 ==> (#[trigger] song.chains@[j]).steps@.len() == 16,
            c <= 255,
            allocated_chains@.len() == 255,
            forall|q: int|
                0 <= q < c ==> (#[trigger] allocated_chains@[q] <==> (exists|k: int|
                    0 <= k < 2048 && song.song.steps@[k] == q) || !chain_is_empty(song.chains@[q])),
            forall|q: int|
                c <= q < 255 ==> (#[trigger] allocated_chains@[q] <==> exists|k: int|
                    0 <= k < 2048 && song.song.steps@[k] == q),
        decreases 255 - c,
    {
        if !song.chains[c].is_empty() {
            allocated_chains[c] = true;
        }
        c = c + 1;
    }
    allocated_chains
}

/// Allocate a slot in the destination: the previous slot if it is free,
/// else the first free slot at or above it, else the first free slot
/// anywhere, else nothing.
pub fn try_allocate(allocation_state: &Vec<bool>, previous_id: u8) -> (r: Option<usize>)
    requires
        (previous_id as int) < allocation_state@.len(),
    ensures
        r is None <==> forall|j: int| 0 <= j < allocation_state@.len() ==> #[trigger] allocation_state@[j],
        r matches Some(slot) ==> (slot as int) < allocation_state@.len()
            && !allocation_state@[slot as int],
        !allocation_state@[previous_id as int] ==> r == Some(previous_id as usize),
        r matches Some(slot) ==> slot > previous_id ==> forall|k: int|
            previous_id <= k < slot ==> #[trigger] allocation_state@[k],
        r matches Some(slot) ==> slot < previous_id ==> (forall|k: int|
            previous_id <= k < allocation_state@.len() ==> #[trigger] allocation_state@[k]) && (
        forall|k: int| 0 <= k < slot ==> #[trigger] allocation_state@[k]),
{
    let n = allocation_state.len();
    let prev = previous_id as usize;
    if !allocation_state[prev] {
        return Some(prev);
    }
    let mut j: usize = prev;
    while j < n
        invariant
            n == allocation_state@.len(),
            prev == previous_id as usize,
            (previous_id as int) < n,
            allocation_state@[prev as int],
            prev <= j <= n,
            forall|k: int| prev <= k < j ==> #[trigger] allocation_state@[k],
        decreases n - j,
    {
        if !allocation_state[j] {
            return Some(j);
        }
        j = j + 1;
    }
    let mut j: usize = 0;
    while j < n
        invariant
            n == allocation_state@.len(),
            prev == previous_id as usize,
            (previous_id as int) < n,
            allocation_state@[prev as int],
            j <= n,
            forall|k: int| prev <= k < n ==> #[trigger] allocation_state@[k],
            forall|k: int| 0 <= k < j ==> #[trigger] allocation_state@[k],
        decreases n - j,
    {
        if !allocation_state[j] {
            return Some(j);
        }
        j = j + 1;
    }
    None
}

/// Compare two chain row groups structurally.
fn chain_steps_eq(a: &Vec<ChainStep>, b: &Vec<ChainStep>) -> (r: bool)
    ensures
        r == (a@ == b@),
{
    let na = a.len();
    if na != b.len() {
        proof {
            assert(a@ != b@);
        }
        return false;
    }
    let mut i: usize = 0;
    while i < na
        invariant
            na == a@.len(),
            na == b@.len(),
            i <= na,
            forall|j: int| 0 <= j < i ==> a@[j] == b@[j],
        decreases na - i,
    {
        if !(a[i] == b[i]) {
            proof {
                assert(a@[i as int] != b@[i as int]);
            }
            return false;
        }
        i = i + 1;
    }
    proof {
        assert(a@ =~= b@);
    }
    true
}

/// Compare two phrase row groups structurally.
fn phrase_steps_eq(a: &Vec<Step>, b: &Vec<Step>) -> (r: bool)
    ensures
        r == (a@ == b@),
{
    let na = a.len();
    if na != b.len() {
        proof {
            assert(a@ != b@);
        }
        return false;
    }
    let mut i: usize = 0;
    while i < na
        invariant
            na == a@.len(),
            na == b@.len(),
            i <= na,
            forall|j: int| 0 <= j < i ==> a@[j] == b@[j],
        decreases na - i,
    {
        if !(a[i] == b[i]) {
            proof {
                assert(a@[i as int] != b@[i as int]);
            }
            return false;
        }
        i = i + 1;
    }
    proof {
        assert(a@ =~= b@);
    }
    true
}

/// First chain of `chains` whose rows equal `target`, if any.
fn position_chain(chains: &Vec<Chain>, target: &Vec<ChainStep>) -> (r: Option<usize>)
    ensures
        r matches Some(t) ==> (t as int) < chains@.len() && chains@[t as int].steps@ == target@
            && forall|k: int| 0 <= k < t ==> (#[trigger] chains@[k]).steps@ != target@,
        r is None ==> forall|k: int|
            0 <= k < chains@.len() ==> (#[trigger] chains@[k]).steps@ != target@,
{
    let n = chains.len();
    let mut i: usize = 0;
    while i < n
        invariant
            n == chains@.len(),
            i <= n,
            forall|k: int| 0 <= k < i ==> (#[trigger] chains@[k]).steps@ != target@,
        decreases n - i,
    {
        if chain_steps_eq(&chains[i].steps, target) {
            return Some(i);
        }
        i = i + 1;
    }
    None
}

/// First phrase of `phrases` whose rows equal `target`, if any.
fn position_phrase(phrases: &Vec<Phrase>, target: &Vec<Step>) -> (r: Option<usize>)
    ensures
        r matches Some(t) ==> (t as int) < phrases@.len() && phrases@[t as int].steps@ == target@
            && forall|k: int| 0 <= k < t ==> (#[trigger] phrases@[k]).steps@ != target@,
        r is None ==> forall|k: int|
            0 <= k < phrases@.len() ==> (#[trigger] phrases@[k]).steps@ != target@,
{
    let n = phrases.len();
    let mut i: usize = 0;
    while i < n
        invariant
            n == phrases@.len(),
            i <= n,
            forall|k: int| 0 <= k < i ==> (#[trigger] phrases@[k]).steps@ != target@,
        decreases n - i,
    {
        if phrase_steps_eq(&phrases[i].steps, target) {
            return Some(i);
        }
        i = i + 1;
    }
    None
}

/// First EQ of `eqs` equal to `target`, if any.
fn position_eq(eqs: &Vec<Equ>, target: &Equ) -> (r: Option<usize>)
    ensures
        r matches Some(t) ==> (t as int) < eqs@.len() && eqs@[t as int] == *target && forall|
            k: int,
        | 0 <= k < t ==> #[trigger] eqs@[k] != *target,
        r is None ==> forall|k: int| 0 <= k < eqs@.len() ==> #[trigger] eqs@[k] != *target,
{
    let n = eqs.len();
    let mut i: usize = 0;
    while i < n
        invariant
            n == eqs@.len(),
            i <= n,
            forall|k: int| 0 <= k < i ==> #[trigger] eqs@[k] != *target,
        decreases n - i,
    {
        if eqs[i] == *target {
            return Some(i);
        }
        i = i + 1;
    }
    None
}

/// First instrument of `instruments` structurally equal to `target`, if
/// any.
fn position_instrument(instruments: &Vec<Instrument>, target: &Instrument) -> (r: Option<usize>)
    ensures
        r matches Some(t) ==> (t as int) < instruments@.len() && crate::instruments::inst_equiv(
            instruments@[t as int],
            *target,
        ) && forall|k: int|
            0 <= k < t ==> !crate::instruments::inst_equiv(#[trigger] instruments@[k], *target),
        r is None ==> forall|k: int|
            0 <= k < instruments@.len() ==> !crate::instruments::inst_equiv(
                #[trigger] instruments@[k],
                *target,
            ),
{
    let n = instruments.len();
    let mut i: usize = 0;
    while i < n
        invariant
            n == instruments@.len(),
            i <= n,
            forall|k: int|
                0 <= k < i ==> !crate::instruments::inst_equiv(
                    #[trigger] instruments@[k],
                    *target,
                ),
        decreases n - i,
    {
        if crate::instruments::instrument_eq(&instruments[i], target) {
            return Some(i);
        }
        i = i + 1;
    }
    None
}

} // verus!

verus! {

impl Remapper {
    /// The destination slot of a requested chain, after `create`.
    pub fn out_chain(&self, chain_id: u8) -> (r: u8)
        requires
            remapper_wf(*self),
            chain_id < 255,
        ensures
            r == self.chain_mapping.mapping@[chain_id as int],
            r < 255,
    {
        self.chain_mapping.mapping[chain_id as usize]
    }

    /// Report every planned move, in EQ, instrument, table, phrase, chain
    /// order.
    pub fn describe<T: RemapperDescriptorBuilder>(&self, builder: &mut T)
        requires
            remapper_wf(*self),
    {
        self.eq_mapping.describe(builder);
        self.instrument_mapping.describe(builder);
        self.table_mapping.describe(builder);
        self.phrase_mapping.describe(builder);
        self.chain_mapping.describe(builder);
    }

    /// Find destination slots for the EQs and instruments the requested
    /// chains transitively reference: for each, reuse a structurally equal
    /// entity of the destination if one exists, else allocate a free slot,
    /// preferring the source slot number.  Fails, mutating nothing, when a
    /// kind runs out of slots.
    fn allocate_eq_and_instruments(
        from_song: &crate::songs::Song,
        to_song: &crate::songs::Song,
        from_chains_ids: &Vec<u8>,
    ) -> (r: Result<(EqMapping, InstrumentMapping), String>)
        requires
            crate::songs::song_wf(*from_song),
            forall|i: int|
                0 <= i < 128 ==> ((#[trigger] from_song.instruments@[i]).spec_equ() matches Some(
                    e,
                ) ==> e < 32 ==> (e as int) < from_song.eqs@.len()),
            crate::songs::song_wf(*to_song),
        ensures
            r matches Ok(m) ==> eq_instr_pass_ok(
                *from_song,
                *to_song,
                from_chains_ids@,
                m.0,
                m.1,
            ),
            // Exhaustion is honest: the pass fails only when a reachable
            // instrument's EQ, or a rewriting of a reachable instrument,
            // matches nothing in the destination.
            r is Err ==> eq_instr_pass_exhausted(*from_song, *to_song, from_chains_ids@),
    {
        let mut instrument_flags: Vec<bool> = Vec::new();
        let mut k: usize = 0;
        while k < 128
            invariant
                k <= 128,
                instrument_flags@.len() == k,
                forall|i: int| 0 <= i < k ==> !(#[trigger] instrument_flags@[i]),
            decreases 128 - k,
        {
            instrument_flags.push(false);
            k = k + 1;
        }
        let mut eq_flags: Vec<bool> = Vec::new();
        let mut k: usize = 0;
        while k < 32
            invariant
                k <= 32,
                eq_flags@.len() == k,
                forall|e: int| 0 <= e < k ==> !(#[trigger] eq_flags@[e]),
            decreases 32 - k,
        {
            eq_flags.push(false);
            k = k + 1;
        }
        let mut allocated_eqs = find_referenced_eq(to_song);
        let mut allocated_instruments = find_allocated_instruments(to_song);
        let mut instrument_mapping = InstrumentMapping::default();
        let mut eq_mapping = EqMapping::default();
        proof {
            assert forall|i: int| 0 <= i < 32 implies #[trigger] eq_mapping.mapping@[i] < 32
                && eq_mapping.mapping@[i] == i by {
                assert(eq_mapping.mapping@[i] == (i + 0) as u8);
            }
            assert forall|i: int| 0 <= i < 128 implies #[trigger] instrument_mapping.mapping@[i]
                < 128 && instrument_mapping.mapping@[i] == i by {
                assert(instrument_mapping.mapping@[i] == (i + 0) as u8);
            }
        }
        let n_ids = from_chains_ids.len();
        let mut ci: usize = 0;
        while ci < n_ids
            invariant
                crate::songs::song_wf(*from_song),
                forall|i: int|
                    0 <= i < 128 ==> ((#[trigger] from_song.instruments@[i]).spec_equ() matches Some(
                        e,
                    ) ==> e < 32 ==> (e as int) < from_song.eqs@.len()),
                crate::songs::song_wf(*to_song),
                n_ids == from_chains_ids@.len(),
                ci <= n_ids,
                instrument_flags@.len() == 128,
                eq_flags@.len() == 32,
                allocated_eqs@.len() == 32,
                allocated_instruments@.len() == 128,
                eq_mapping.mapping@.len() == 32,
                forall|i: int| 0 <= i < 32 ==> #[trigger] eq_mapping.mapping@[i] < 32,
                forall|i: int|
                    0 <= i < eq_mapping.to_move@.len() ==> #[trigger] eq_mapping.to_move@[i] < 32,
                instrument_mapping.mapping@.len() == 128,
                forall|i: int| 0 <= i < 128 ==> #[trigger] instrument_mapping.mapping@[i] < 128,
                forall|i: int|
                    0 <= i < instrument_mapping.to_move@.len()
                        ==> #[trigger] instrument_mapping.to_move@[i] < 128,
                eq_flags@.len() == 32,
                instrument_flags@.len() == 128,
                forall|e: int|
                    0 <= e < 32 && !eq_flags@[e] ==> #[trigger] eq_mapping.mapping@[e] == e
                        && !eq_mapping.to_move@.contains(e as u8),
                forall|e: int|
                    0 <= e < 32 && #[trigger] eq_flags@[e] ==> eq_requested(
                        *from_song,
                        from_chains_ids@,
                        e,
                    ),
                forall|j: int|
                    0 <= j < eq_mapping.to_move@.len() ==> eq_flags@[(
                    #[trigger] eq_mapping.to_move@[j]) as int],
                forall|j: int|
                    0 <= j < eq_mapping.to_move@.len() ==> {
                        let slot = eq_mapping.mapping@[(#[trigger] eq_mapping.to_move@[j]) as int];
                        &&& allocated_eqs@[slot as int]
                        &&& forall|i: int|
                            0 <= i < 128 ==> (#[trigger] to_song.instruments@[i]).spec_equ() != Some(slot)
                    },
                forall|j1: int, j2: int|
                    0 <= j1 < j2 < eq_mapping.to_move@.len()
                        ==> eq_mapping.mapping@[#[trigger] eq_mapping.to_move@[j1] as int]
                        != eq_mapping.mapping@[#[trigger] eq_mapping.to_move@[j2] as int],
                forall|t: int|
                    0 <= t < 32 && (exists|i: int|
                        0 <= i < 128 && (#[trigger] to_song.instruments@[i]).spec_equ() == Some(t as u8))
                        ==> #[trigger] allocated_eqs@[t],
                forall|i: int|
                    0 <= i < 128 && !instrument_flags@[i] ==> #[trigger] instrument_mapping.mapping@[i]
                        == i && !instrument_mapping.to_move@.contains(i as u8),
                forall|i: int|
                    0 <= i < 128 && #[trigger] instrument_flags@[i] ==> instr_requested(
                        *from_song,
                        from_chains_ids@,
                        i,
                    ),
                forall|j: int|
                    0 <= j < instrument_mapping.to_move@.len() ==> instrument_flags@[(
                    #[trigger] instrument_mapping.to_move@[j]) as int],
                forall|j: int|
                    0 <= j < instrument_mapping.to_move@.len() ==> {
                        let slot = instrument_mapping.mapping@[(
                        #[trigger] instrument_mapping.to_move@[j]) as int] as int;
                        &&& allocated_instruments@[slot]
                        &&& to_song.instruments@[slot] is Empty
                    },
                forall|j1: int, j2: int|
                    0 <= j1 < j2 < instrument_mapping.to_move@.len()
                        ==> instrument_mapping.mapping@[#[trigger] instrument_mapping.to_move@[j1] as int]
                        != instrument_mapping.mapping@[#[trigger] instrument_mapping.to_move@[j2] as int],
                forall|t: int|
                    0 <= t < 128 && !(to_song.instruments@[t] is Empty)
                        ==> #[trigger] allocated_instruments@[t],
                forall|t: int|
                    0 <= t < 128 && #[trigger] allocated_instruments@[t] ==> (!(
                    to_song.instruments@[t] is Empty) || exists|j: int|
                        0 <= j < instrument_mapping.to_move@.len() && instrument_mapping.mapping@[(
                        #[trigger] instrument_mapping.to_move@[j]) as int] == t),
                forall|j: int|
                    0 <= j < instrument_mapping.to_move@.len() && to_song.instruments@[(
                    #[trigger] instrument_mapping.to_move@[j]) as int] is Empty && (forall|j2: int|
                        0 <= j2 < j ==> instrument_mapping.mapping@[
                        #[trigger] instrument_mapping.to_move@[j2] as int]
                            != instrument_mapping.to_move@[j])
                        ==> instrument_mapping.mapping@[instrument_mapping.to_move@[j] as int]
                        == instrument_mapping.to_move@[j],
            decreases n_ids - ci,
        {
            let chain_id = from_chains_ids[ci] as usize;
            if chain_id < N_CHAINS {
                let mut si: usize = 0;
                while si < 16
                    invariant
                        crate::songs::song_wf(*from_song),
                        forall|i: int|
                            0 <= i < 128 ==> ((#[trigger] from_song.instruments@[i]).spec_equ() matches Some(
                                e,
                            ) ==> e < 32 ==> (e as int) < from_song.eqs@.len()),
                        crate::songs::song_wf(*to_song),
                        n_ids == from_chains_ids@.len(),
                        ci < n_ids,
                        chain_id == from_chains_ids@[ci as int] as int,
                        chain_id < 255,
                        si <= 16,
                        instrument_flags@.len() == 128,
                        eq_flags@.len() == 32,
                        allocated_eqs@.len() == 32,
                        allocated_instruments@.len() == 128,
                        eq_mapping.mapping@.len() == 32,
                        forall|i: int| 0 <= i < 32 ==> #[trigger] eq_mapping.mapping@[i] < 32,
                        forall|i: int|
                            0 <= i < eq_mapping.to_move@.len() ==> #[trigger] eq_mapping.to_move@[i]
                                < 32,
                        instrument_mapping.mapping@.len() == 128,
                        forall|i: int|
                            0 <= i < 128 ==> #[trigger] instrument_mapping.mapping@[i] < 128,
                        forall|i: int|
                            0 <= i < instrument_mapping.to_move@.len()
                                ==> #[trigger] instrument_mapping.to_move@[i] < 128,
                        eq_flags@.len() == 32,
                        instrument_flags@.len() == 128,
                        forall|e: int|
                            0 <= e < 32 && !eq_flags@[e] ==> #[trigger] eq_mapping.mapping@[e] == e
                                && !eq_mapping.to_move@.contains(e as u8),
                        forall|e: int|
                            0 <= e < 32 && #[trigger] eq_flags@[e] ==> eq_requested(
                                *from_song,
                                from_chains_ids@,
                                e,
                            ),
                        forall|j: int|
                            0 <= j < eq_mapping.to_move@.len() ==> eq_flags@[(
                            #[trigger] eq_mapping.to_move@[j]) as int],
                        forall|j: int|
                            0 <= j < eq_mapping.to_move@.len() ==> {
                                let slot = eq_mapping.mapping@[(#[trigger] eq_mapping.to_move@[j]) as int];
                                &&& allocated_eqs@[slot as int]
                                &&& forall|i: int|
                                    0 <= i < 128 ==> (#[trigger] to_song.instruments@[i]).spec_equ() != Some(slot)
                            },
                        forall|j1: int, j2: int|
                            0 <= j1 < j2 < eq_mapping.to_move@.len()
                                ==> eq_mapping.mapping@[#[trigger] eq_mapping.to_move@[j1] as int]
                                != eq_mapping.mapping@[#[trigger] eq_mapping.to_move@[j2] as int],
                        forall|t: int|
                            0 <= t < 32 && (exists|i: int|
                                0 <= i < 128 && (#[trigger] to_song.instruments@[i]).spec_equ() == Some(t as u8))
                                ==> #[trigger] allocated_eqs@[t],
                        forall|i: int|
                            0 <= i < 128 && !instrument_flags@[i] ==> #[trigger] instrument_mapping.mapping@[i]
                                == i && !instrument_mapping.to_move@.contains(i as u8),
                        forall|i: int|
                            0 <= i < 128 && #[trigger] instrument_flags@[i] ==> instr_requested(
                                *from_song,
                                from_chains_ids@,
                                i,
                            ),
                        forall|j: int|
                            0 <= j < instrument_mapping.to_move@.len() ==> instrument_flags@[(
                            #[trigger] instrument_mapping.to_move@[j]) as int],
                        forall|j: int|
                            0 <= j < instrument_mapping.to_move@.len() ==> {
                                let slot = instrument_mapping.mapping@[(
                                #[trigger] instrument_mapping.to_move@[j]) as int] as int;
                                &&& allocated_instruments@[slot]
                                &&& to_song.instruments@[slot] is Empty
                            },
                        forall|j1: int, j2: int|
                            0 <= j1 < j2 < instrument_mapping.to_move@.len()
                                ==> instrument_mapping.mapping@[#[trigger] instrument_mapping.to_move@[j1] as int]
                                != instrument_mapping.mapping@[#[trigger] instrument_mapping.to_move@[j2] as int],
                        forall|t: int|
                            0 <= t < 128 && !(to_song.instruments@[t] is Empty)
                                ==> #[trigger] allocated_instruments@[t],
                        forall|t: int|
                            0 <= t < 128 && #[trigger] allocated_instruments@[t] ==> (!(
                            to_song.instruments@[t] is Empty) || exists|j: int|
                                0 <= j < instrument_mapping.to_move@.len() && instrument_mapping.mapping@[(
                                #[trigger] instrument_mapping.to_move@[j]) as int] == t),
                        forall|j: int|
                            0 <= j < instrument_mapping.to_move@.len() && to_song.instruments@[(
                            #[trigger] instrument_mapping.to_move@[j]) as int] is Empty && (forall|j2: int|
                                0 <= j2 < j ==> instrument_mapping.mapping@[
                                #[trigger] instrument_mapping.to_move@[j2] as int]
                                    != instrument_mapping.to_move@[j])
                                ==> instrument_mapping.mapping@[instrument_mapping.to_move@[j] as int]
                                == instrument_mapping.to_move@[j],
                    decreases 16 - si,
                {
                    let phrase_id = from_song.chains[chain_id].steps[si].phrase as usize;
                    if phrase_id < N_PHRASES {
                        let mut pi: usize = 0;
                        while pi < 16
                            invariant
                                crate::songs::song_wf(*from_song),
                                forall|i: int|
                                    0 <= i < 128 ==> ((#[trigger] from_song.instruments@[i]).spec_equ() matches Some(
                                        e,
                                    ) ==> e < 32 ==> (e as int) < from_song.eqs@.len()),
                                crate::songs::song_wf(*to_song),
                                n_ids == from_chains_ids@.len(),
                                ci < n_ids,
                                chain_id == from_chains_ids@[ci as int] as int,
                                chain_id < 255,
                                si < 16,
                                phrase_id == from_song.chains@[chain_id as int].steps@[si as int].phrase as int,
                                phrase_id < 255,
                                pi <= 16,
                                instrument_flags@.len() == 128,
                                eq_flags@.len() == 32,
                                allocated_eqs@.len() == 32,
                                allocated_instruments@.len() == 128,
                                eq_mapping.mapping@.len() == 32,
                                forall|i: int|
                                    0 <= i < 32 ==> #[trigger] eq_mapping.mapping@[i] < 32,
                                forall|i: int|
                                    0 <= i < eq_mapping.to_move@.len()
                                        ==> #[trigger] eq_mapping.to_move@[i] < 32,
                                instrument_mapping.mapping@.len() == 128,
                                forall|i: int|
                                    0 <= i < 128 ==> #[trigger] instrument_mapping.mapping@[i]
                                        < 128,
                                forall|i: int|
                                    0 <= i < instrument_mapping.to_move@.len()
                                        ==> #[trigger] instrument_mapping.to_move@[i] < 128,
                                eq_flags@.len() == 32,
                                instrument_flags@.len() == 128,
                                forall|e: int|
                                    0 <= e < 32 && !eq_flags@[e] ==> #[trigger] eq_mapping.mapping@[e] == e
                                        && !eq_mapping.to_move@.contains(e as u8),
                                forall|e: int|
                                    0 <= e < 32 && #[trigger] eq_flags@[e] ==> eq_requested(
                                        *from_song,
                                        from_chains_ids@,
                                        e,
                                    ),
                                forall|j: int|
                                    0 <= j < eq_mapping.to_move@.len() ==> eq_flags@[(
                                    #[trigger] eq_mapping.to_move@[j]) as int],
                                forall|j: int|
                                    0 <= j < eq_mapping.to_move@.len() ==> {
                                        let slot = eq_mapping.mapping@[(#[trigger] eq_mapping.to_move@[j]) as int];
                                        &&& allocated_eqs@[slot as int]
                                        &&& forall|i: int|
                                            0 <= i < 128 ==> (#[trigger] to_song.instruments@[i]).spec_equ() != Some(slot)
                                    },
                                forall|j1: int, j2: int|
                                    0 <= j1 < j2 < eq_mapping.to_move@.len()
                                        ==> eq_mapping.mapping@[#[trigger] eq_mapping.to_move@[j1] as int]
                                        != eq_mapping.mapping@[#[trigger] eq_mapping.to_move@[j2] as int],
                                forall|t: int|
                                    0 <= t < 32 && (exists|i: int|
                                        0 <= i < 128 && (#[trigger] to_song.instruments@[i]).spec_equ() == Some(t as u8))
                                        ==> #[trigger] allocated_eqs@[t],
                                forall|i: int|
                                    0 <= i < 128 && !instrument_flags@[i] ==> #[trigger] instrument_mapping.mapping@[i]
                                        == i && !instrument_mapping.to_move@.contains(i as u8),
                                forall|i: int|
                                    0 <= i < 128 && #[trigger] instrument_flags@[i] ==> instr_requested(
                                        *from_song,
                                        from_chains_ids@,
                                        i,
                                    ),
                                forall|j: int|
                                    0 <= j < instrument_mapping.to_move@.len() ==> instrument_flags@[(
                                    #[trigger] instrument_mapping.to_move@[j]) as int],
                                forall|j: int|
                                    0 <= j < instrument_mapping.to_move@.len() ==> {
                                        let slot = instrument_mapping.mapping@[(
                                        #[trigger] instrument_mapping.to_move@[j]) as int] as int;
                                        &&& allocated_instruments@[slot]
                                        &&& to_song.instruments@[slot] is Empty
                                    },
                                forall|j1: int, j2: int|
                                    0 <= j1 < j2 < instrument_mapping.to_move@.len()
                                        ==> instrument_mapping.mapping@[#[trigger] instrument_mapping.to_move@[j1] as int]
                                        != instrument_mapping.mapping@[#[trigger] instrument_mapping.to_move@[j2] as int],
                                forall|t: int|
                                    0 <= t < 128 && !(to_song.instruments@[t] is Empty)
                                        ==> #[trigger] allocated_instruments@[t],
                                forall|t: int|
                                    0 <= t < 128 && #[trigger] allocated_instruments@[t] ==> (!(
                                    to_song.instruments@[t] is Empty) || exists|j: int|
                                        0 <= j < instrument_mapping.to_move@.len() && instrument_mapping.mapping@[(
                                        #[trigger] instrument_mapping.to_move@[j]) as int] == t),
                                forall|j: int|
                                    0 <= j < instrument_mapping.to_move@.len() && to_song.instruments@[(
                                    #[trigger] instrument_mapping.to_move@[j]) as int] is Empty && (forall|j2: int|
                                        0 <= j2 < j ==> instrument_mapping.mapping@[
                                        #[trigger] instrument_mapping.to_move@[j2] as int]
                                            != instrument_mapping.to_move@[j])
                                        ==> instrument_mapping.mapping@[instrument_mapping.to_move@[j] as int]
                                        == instrument_mapping.to_move@[j],
                            decreases 16 - pi,
                        {
                            let instr_ix = from_song.phrases[phrase_id].steps[pi].instrument
                                as usize;
                            if instr_ix < N_INSTRUMENTS && !instrument_flags[instr_ix] {
                                proof {
                                    assert(phrase_requested(
                                        *from_song,
                                        from_chains_ids@,
                                        phrase_id as int,
                                    )) by {
                                        assert(from_song.chains@[chain_id as int].steps@[si as int].phrase
                                            == phrase_id as u8);
                                        assert(chain_refs_phrase(
                                            from_song.chains@[chain_id as int].steps@,
                                            phrase_id as int,
                                        ));
                                        assert(from_chains_ids@[ci as int] < 255
                                            && chain_refs_phrase(
                                            from_song.chains@[from_chains_ids@[ci as int] as int].steps@,
                                            phrase_id as int,
                                        ));
                                    }
                                    assert(instr_requested(
                                        *from_song,
                                        from_chains_ids@,
                                        instr_ix as int,
                                    )) by {
                                        assert(from_song.phrases@[phrase_id as int].steps@[pi as int].instrument
                                            == instr_ix as u8);
                                        assert(phrase_refs_instr(
                                            from_song.phrases@[phrase_id as int].steps@,
                                            instr_ix as int,
                                        ));
                                    }
                                }
                                let ghost pre_eflags = eq_flags@;
                                let ghost pre_ainstr = allocated_instruments@;
                                let ghost pre_emap = eq_mapping.mapping@;
                                let ghost pre_imap = instrument_mapping.mapping@;
                                let ghost pre_emoves = eq_mapping.to_move@;
                                let ghost pre_imoves = instrument_mapping.to_move@;
                                let ghost source = from_song.instruments@[instr_ix as int];
                                let mut instr = crate::instruments::clone_instrument(
                                    &from_song.instruments[instr_ix],
                                );
                                let ghost instr0 = instr;
                                let ghost mut rewritten_eq: u8 = 0;
                                proof {
                                    crate::instruments::lemma_inst_equiv_equ(instr, source);
                                }
                                match instr.equ() {
                                    Some(equ8) => {
                                        let equ = equ8 as usize;
                                        if equ < N_INSTRUMENT_EQS && !eq_flags[equ] {
                                            eq_flags[equ] = true;
                                            let found = position_eq(
                                                &to_song.eqs,
                                                &from_song.eqs[equ],
                                            );
                                            match found {
                                                Some(eq_idx) if eq_idx < N_INSTRUMENT_EQS => {
                                                    eq_mapping.mapping[equ] = eq_idx as u8;
                                                },
                                                _ => {
                                                    match try_allocate(&allocated_eqs, equ as u8) {
                                                        None => {
                                                            proof {
                                                                assert(source.spec_equ() == Some(
                                                                    equ8,
                                                                ));
                                                                assert(forall|t: int|
                                                                    0 <= t < 32 && t
                                                                        < to_song.eqs@.len()
                                                                        ==> #[trigger] to_song.eqs@[t]
                                                                        != from_song.eqs@[
                                                                        equ8 as int]) by {
                                                                    if found is Some {
                                                                        let idx =
                                                                            found.unwrap() as int;
                                                                        assert(idx >= 32);
                                                                    }
                                                                }
                                                                assert(eq_instr_pass_exhausted(
                                                                    *from_song,
                                                                    *to_song,
                                                                    from_chains_ids@,
                                                                ));
                                                            }
                                                            return Err(
                                                                "No more available eqs for instrument".to_string(),
                                                            );
                                                        },
                                                        Some(eq_slot) => {
                                                            allocated_eqs[eq_slot] = true;
                                                            eq_mapping.mapping[equ] = eq_slot
                                                                as u8;
                                                            eq_mapping.to_move.push(equ as u8);
                                                        },
                                                    }
                                                },
                                            }
                                            proof {
                                                rewritten_eq = eq_mapping.mapping@[equ as int];
                                                crate::instruments::lemma_set_eq_equiv(
                                                    instr,
                                                    source,
                                                    eq_mapping.mapping@[equ as int],
                                                );
                                            }
                                            instr.set_eq(eq_mapping.mapping[equ]);
                                        } else if equ < N_INSTRUMENT_EQS {
                                            proof {
                                                rewritten_eq = eq_mapping.mapping@[equ as int];
                                                crate::instruments::lemma_set_eq_equiv(
                                                    instr,
                                                    source,
                                                    eq_mapping.mapping@[equ as int],
                                                );
                                            }
                                            instr.set_eq(eq_mapping.mapping[equ]);
                                        }
                                    },
                                    None => {},
                                }
                                proof {
                                    assert(crate::instruments::inst_equiv(
                                        instr,
                                        inst_rewritten(source, rewritten_eq),
                                    ));
                                }
                                instrument_flags[instr_ix] = true;
                                match position_instrument(&to_song.instruments, &instr) {
                                    Some(to_instr_ix) => {
                                        instrument_mapping.mapping[instr_ix] = to_instr_ix as u8;
                                    },
                                    None => {
                                        match try_allocate(
                                            &allocated_instruments,
                                            instr_ix as u8,
                                        ) {
                                            None => {
                                                proof {
                                                    let rewritten = inst_rewritten(
                                                        source,
                                                        rewritten_eq,
                                                    );
                                                    assert forall|t: int|
                                                        0 <= t < 128
                                                            implies !crate::instruments::inst_equiv(
                                                        #[trigger] to_song.instruments@[t],
                                                        rewritten,
                                                    ) by {
                                                        if crate::instruments::inst_equiv(
                                                            to_song.instruments@[t],
                                                            rewritten,
                                                        ) {
                                                            crate::instruments::lemma_inst_equiv_sym(
                                                                instr,
                                                                rewritten,
                                                            );
                                                            crate::instruments::lemma_inst_equiv_trans(
                                                                to_song.instruments@[t],
                                                                rewritten,
                                                                instr,
                                                            );
                                                        }
                                                    }
                                                    assert(eq_instr_pass_exhausted(
                                                        *from_song,
                                                        *to_song,
                                                        from_chains_ids@,
                                                    ));
                                                }
                                                return Err(
                                                    "No more available instrument slots for instrument".to_string(),
                                                );
                                            },
                                            Some(to_instr_ix) => {
                                                instrument_mapping.mapping[instr_ix] = to_instr_ix
                                                    as u8;
                                                allocated_instruments[to_instr_ix] = true;
                                                instrument_mapping.to_move.push(instr_ix as u8);
                                            },
                                        }
                                    },
                                }
                                proof {
                                    assert forall|j: int|
                                        0 <= j < pre_emoves.len() implies #[trigger] eq_mapping.to_move@[j]
                                        == pre_emoves[j] by {}
                                    assert forall|j: int|
                                        0 <= j < pre_imoves.len()
                                            implies #[trigger] instrument_mapping.to_move@[j]
                                        == pre_imoves[j] by {}
                                    assert forall|c: u8| pre_emoves.contains(c)
                                        implies eq_mapping.to_move@.contains(c) by {
                                        let j = choose|j: int|
                                            0 <= j < pre_emoves.len() && pre_emoves[j] == c;
                                        assert(eq_mapping.to_move@[j] == c);
                                    }
                                    assert forall|c: u8| pre_imoves.contains(c)
                                        implies instrument_mapping.to_move@.contains(c) by {
                                        let j = choose|j: int|
                                            0 <= j < pre_imoves.len() && pre_imoves[j] == c;
                                        assert(instrument_mapping.to_move@[j] == c);
                                    }
                                    assert forall|c: u8|
                                        !pre_emoves.contains(c) && !eq_flags@[c as int] && c < 32
                                            implies !eq_mapping.to_move@.contains(c) by {
                                        assert forall|j: int|
                                            0 <= j < eq_mapping.to_move@.len()
                                                implies eq_mapping.to_move@[j] != c by {
                                            if j < pre_emoves.len() {
                                                assert(eq_mapping.to_move@[j] == pre_emoves[j]);
                                                assert(pre_emoves[j] != c);
                                            } else {
                                                assert(eq_flags@[eq_mapping.to_move@[j] as int]);
                                            }
                                        }
                                    }
                                    assert forall|c: u8|
                                        !pre_imoves.contains(c) && c != instr_ix as u8
                                            implies !instrument_mapping.to_move@.contains(c) by {
                                        assert forall|j: int|
                                            0 <= j < instrument_mapping.to_move@.len()
                                                implies instrument_mapping.to_move@[j] != c by {
                                            if j < pre_imoves.len() {
                                                assert(instrument_mapping.to_move@[j]
                                                    == pre_imoves[j]);
                                                assert(pre_imoves[j] != c);
                                            }
                                        }
                                    }
                                    assert forall|j: int|
                                        0 <= j < eq_mapping.to_move@.len() implies ({
                                        let slot = eq_mapping.mapping@[(
                                        #[trigger] eq_mapping.to_move@[j]) as int];
                                        &&& allocated_eqs@[slot as int]
                                        &&& forall|i: int|
                                            0 <= i < 128 ==> (
                                            #[trigger] to_song.instruments@[i]).spec_equ()
                                                != Some(slot)
                                    }) by {
                                        if j < pre_emoves.len() {
                                            assert(eq_mapping.to_move@[j] == pre_emoves[j]);
                                            assert(pre_eflags[pre_emoves[j] as int]);
                                            assert(eq_mapping.mapping@[pre_emoves[j] as int]
                                                == pre_emap[pre_emoves[j] as int]);
                                        }
                                    }
                                    assert forall|j: int|
                                        0 <= j < instrument_mapping.to_move@.len() implies ({
                                        let slot = instrument_mapping.mapping@[(
                                        #[trigger] instrument_mapping.to_move@[j]) as int] as int;
                                        &&& allocated_instruments@[slot]
                                        &&& to_song.instruments@[slot] is Empty
                                    }) by {
                                        if j < pre_imoves.len() {
                                            assert(instrument_mapping.to_move@[j]
                                                == pre_imoves[j]);
                                            assert(pre_imoves[j] != instr_ix as u8);
                                            assert(instrument_mapping.mapping@[pre_imoves[
                                                j] as int] == pre_imap[pre_imoves[j] as int]);
                                        }
                                    }
                                    assert forall|j1: int, j2: int|
                                        0 <= j1 < j2 < eq_mapping.to_move@.len()
                                            implies eq_mapping.mapping@[
                                        #[trigger] eq_mapping.to_move@[j1] as int]
                                        != eq_mapping.mapping@[#[trigger] eq_mapping.to_move@[
                                        j2] as int] by {
                                        if j2 < pre_emoves.len() {
                                        } else if j2 == eq_mapping.to_move@.len() - 1
                                            && eq_mapping.to_move@.len() > pre_emoves.len() {
                                            assert(eq_mapping.to_move@[j1] == pre_emoves[j1]);
                                        }
                                    }
                                    assert forall|j1: int, j2: int|
                                        0 <= j1 < j2 < instrument_mapping.to_move@.len()
                                            implies instrument_mapping.mapping@[
                                        #[trigger] instrument_mapping.to_move@[j1] as int]
                                        != instrument_mapping.mapping@[
                                        #[trigger] instrument_mapping.to_move@[j2] as int] by {
                                        if j2 < pre_imoves.len() {
                                        } else {
                                            assert(j2 == instrument_mapping.to_move@.len() - 1);
                                            assert(instrument_mapping.to_move@[j1]
                                                == pre_imoves[j1]);
                                        }
                                    }
                                    assert forall|t: int|
                                        0 <= t < 128 && #[trigger] allocated_instruments@[t]
                                            implies (!(to_song.instruments@[t] is Empty)
                                            || exists|j: int|
                                            0 <= j < instrument_mapping.to_move@.len()
                                                && instrument_mapping.mapping@[(
                                            #[trigger] instrument_mapping.to_move@[j]) as int]
                                                == t) by {
                                        if pre_ainstr[t] {
                                            if to_song.instruments@[t] is Empty {
                                                let j = choose|j: int|
                                                    0 <= j < pre_imoves.len() && pre_imap[(
                                                    #[trigger] pre_imoves[j]) as int] == t;
                                                assert(instrument_mapping.to_move@[j]
                                                    == pre_imoves[j]);
                                                assert(pre_imoves[j] != instr_ix as u8);
                                                assert(instrument_mapping.mapping@[pre_imoves[
                                                    j] as int] == t);
                                            }
                                        } else {
                                            let j = instrument_mapping.to_move@.len() - 1;
                                            assert(instrument_mapping.to_move@[j]
                                                == instr_ix as u8);
                                            assert(instrument_mapping.mapping@[instr_ix as int]
                                                == t);
                                        }
                                    }
                                    assert forall|j: int|
                                        0 <= j < instrument_mapping.to_move@.len()
                                            && to_song.instruments@[(
                                        #[trigger] instrument_mapping.to_move@[j]) as int]
                                            is Empty && (forall|j2: int|
                                            0 <= j2 < j ==> instrument_mapping.mapping@[
                                            #[trigger] instrument_mapping.to_move@[j2] as int]
                                                != instrument_mapping.to_move@[j])
                                            implies instrument_mapping.mapping@[
                                        instrument_mapping.to_move@[j] as int]
                                            == instrument_mapping.to_move@[j] by {
                                        if j < pre_imoves.len() {
                                            assert(instrument_mapping.to_move@[j]
                                                == pre_imoves[j]);
                                            assert forall|j2: int|
                                                0 <= j2 < j implies pre_imap[
                                                #[trigger] pre_imoves[j2] as int] != pre_imoves[
                                                j] by {
                                                assert(instrument_mapping.to_move@[j2]
                                                    == pre_imoves[j2]);
                                                assert(instrument_mapping.mapping@[pre_imoves[
                                                    j2] as int] == pre_imap[pre_imoves[
                                                    j2] as int]);
                                            }
                                            assert(pre_imoves[j] != instr_ix as u8);
                                        } else {
                                            // the newly queued instrument: its own slot was
                                            // free, so the allocator preferred it
                                            if to_song.instruments@[instr_ix as int] is Empty
                                                && (forall|j2: int|
                                                0 <= j2 < j ==> instrument_mapping.mapping@[
                                                #[trigger] instrument_mapping.to_move@[
                                                    j2] as int] != instr_ix as u8) {
                                                assert(!pre_ainstr[instr_ix as int]) by {
                                                    if pre_ainstr[instr_ix as int] {
                                                        let jw = choose|jw: int|
                                                            0 <= jw < pre_imoves.len()
                                                                && pre_imap[(
                                                            #[trigger] pre_imoves[jw]) as int]
                                                                == instr_ix as int;
                                                        assert(instrument_mapping.to_move@[jw]
                                                            == pre_imoves[jw]);
                                                        assert(instrument_mapping.mapping@[
                                                            pre_imoves[jw] as int]
                                                            == instr_ix as u8);
                                                    }
                                                }
                                            }
                                        }
                                    }
                                }
                            }
                            pi = pi + 1;
                        }
                    }
                    si = si + 1;
                }
            }
            ci = ci + 1;
        }
        Ok((eq_mapping, instrument_mapping))
    }

    /// Find destination slots for the phrases the requested chains
    /// reference, after renumbering their instrument references through
    /// the first pass's mapping.  Each referenced phrase either reuses a
    /// structurally equal destination phrase, or is queued for a move into
    /// a slot no referenced phrase occupies; distinct moves never share a
    /// target, and unreferenced phrases keep the zero mapping the table is
    /// built with.
    #[verifier::rlimit(100)]
    fn allocate_phrases(
        from_song: &crate::songs::Song,
        to_song: &crate::songs::Song,
        instrument_mapping: &InstrumentMapping,
        from_chains_ids: &Vec<u8>,
    ) -> (r: Result<PhraseMapping, String>)
        requires
            crate::songs::song_wf(*from_song),
            crate::songs::song_wf(*to_song),
            instrument_mapping.mapping@.len() == 128,
        ensures
            r matches Ok(pm) ==> phrase_pass_ok(
                *from_song,
                *to_song,
                instrument_mapping.mapping@,
                from_chains_ids@,
                pm,
            ),
            r is Err ==> phrase_pass_exhausted(
                *from_song,
                *to_song,
                instrument_mapping.mapping@,
                from_chains_ids@,
            ),
    {
        let mut allocated_phrases = find_referenced_phrases(to_song);
        let mut seen_phrase: Vec<bool> = Vec::new();
        let mut phrase_mapping: Vec<u8> = Vec::new();
        let mut k: usize = 0;
        while k < 255
            invariant
                k <= 255,
                seen_phrase@.len() == k,
                phrase_mapping@.len() == k,
                forall|p: int| 0 <= p < k ==> !(#[trigger] seen_phrase@[p]),
                forall|p: int| 0 <= p < k ==> #[trigger] phrase_mapping@[p] == 0,
            decreases 255 - k,
        {
            seen_phrase.push(false);
            phrase_mapping.push(0);
            k = k + 1;
        }
        let mut to_move: Vec<u8> = Vec::new();
        let n_ids = from_chains_ids.len();
        let mut ci: usize = 0;
        while ci < n_ids
            invariant
                crate::songs::song_wf(*from_song),
                crate::songs::song_wf(*to_song),
                instrument_mapping.mapping@.len() == 128,
                n_ids == from_chains_ids@.len(),
                ci <= n_ids,
                allocated_phrases@.len() == 255,
                seen_phrase@.len() == 255,
                phrase_mapping@.len() == 255,
                forall|i: int| 0 <= i < 255 ==> #[trigger] phrase_mapping@[i] < 255,
                forall|i: int| 0 <= i < to_move@.len() ==> #[trigger] to_move@[i] < 255,
                forall|t: int|
                    0 <= t < 255 && ((exists|c: int|
                        0 <= c < 255 && chain_refs_phrase(
                            (#[trigger] to_song.chains@[c]).steps@,
                            t,
                        )) || !phrase_is_empty(to_song.phrases@[t]))
                        ==> #[trigger] allocated_phrases@[t],
                forall|p: int| 0 <= p < 255 && #[trigger] seen_phrase@[p] ==> phrase_requested(
                    *from_song,
                    from_chains_ids@,
                    p,
                ),
                forall|k: int|
                    0 <= k < ci ==> (#[trigger] from_chains_ids@[k]) < 255 ==> forall|p: int|
                        0 <= p < 255 && chain_refs_phrase(
                            from_song.chains@[from_chains_ids@[k] as int].steps@,
                            p,
                        ) ==> seen_phrase@[p],
                forall|p: int|
                    0 <= p < 255 && !seen_phrase@[p] ==> #[trigger] phrase_mapping@[p] == 0
                        && !to_move@.contains(p as u8),
                forall|p: int|
                    0 <= p < 255 && #[trigger] seen_phrase@[p] ==> {
                        let mapped = crate::songs::phrase_mapped_steps(
                            from_song.phrases@[p].steps@,
                            instrument_mapping.mapping@,
                        );
                        ||| (to_song.phrases@[phrase_mapping@[p] as int].steps@ == mapped
                            && !to_move@.contains(p as u8))
                        ||| (to_move@.contains(p as u8) && forall|t: int|
                            0 <= t < 255 ==> (#[trigger] to_song.phrases@[t]).steps@ != mapped)
                    },
                forall|j: int| 0 <= j < to_move@.len() ==> seen_phrase@[(
                #[trigger] to_move@[j]) as int],
                forall|j: int|
                    0 <= j < to_move@.len() ==> {
                        let slot = phrase_mapping@[(#[trigger] to_move@[j]) as int] as int;
                        &&& allocated_phrases@[slot]
                        &&& !((exists|c: int|
                            0 <= c < 255 && chain_refs_phrase(
                                (#[trigger] to_song.chains@[c]).steps@,
                                slot,
                            )) || !phrase_is_empty(to_song.phrases@[slot]))
                    },
                forall|j1: int, j2: int|
                    0 <= j1 < j2 < to_move@.len()
                        ==> phrase_mapping@[#[trigger] to_move@[j1] as int]
                        != phrase_mapping@[#[trigger] to_move@[j2] as int],
            decreases n_ids - ci,
        {
            let chain_id = from_chains_ids[ci] as usize;
            if chain_id < N_CHAINS {
                let mut si: usize = 0;
                while si < 16
                    invariant
                        crate::songs::song_wf(*from_song),
                        crate::songs::song_wf(*to_song),
                        instrument_mapping.mapping@.len() == 128,
                        n_ids == from_chains_ids@.len(),
                        ci < n_ids,
                        chain_id == from_chains_ids@[ci as int] as int,
                        chain_id < 255,
                        si <= 16,
                        allocated_phrases@.len() == 255,
                        seen_phrase@.len() == 255,
                        phrase_mapping@.len() == 255,
                        forall|i: int| 0 <= i < 255 ==> #[trigger] phrase_mapping@[i] < 255,
                        forall|i: int| 0 <= i < to_move@.len() ==> #[trigger] to_move@[i] < 255,
                        forall|t: int|
                            0 <= t < 255 && ((exists|c: int|
                                0 <= c < 255 && chain_refs_phrase(
                                    (#[trigger] to_song.chains@[c]).steps@,
                                    t,
                                )) || !phrase_is_empty(to_song.phrases@[t]))
                                ==> #[trigger] allocated_phrases@[t],
                        forall|p: int|
                            0 <= p < 255 && #[trigger] seen_phrase@[p] ==> phrase_requested(
                                *from_song,
                                from_chains_ids@,
                                p,
                            ),
                        forall|k: int|
                            0 <= k < ci ==> (#[trigger] from_chains_ids@[k]) < 255 ==> forall|
                                p: int,
                            |
                                0 <= p < 255 && chain_refs_phrase(
                                    from_song.chains@[from_chains_ids@[k] as int].steps@,
                                    p,
                                ) ==> seen_phrase@[p],
                        forall|t: int|
                            0 <= t < si && from_song.chains@[chain_id as int].steps@[t].phrase
                                < 255 ==> seen_phrase@[(
                            #[trigger] from_song.chains@[chain_id as int].steps@[t]).phrase as int],
                        forall|p: int|
                            0 <= p < 255 && !seen_phrase@[p] ==> #[trigger] phrase_mapping@[p]
                                == 0 && !to_move@.contains(p as u8),
                        forall|p: int|
                            0 <= p < 255 && #[trigger] seen_phrase@[p] ==> {
                                let mapped = crate::songs::phrase_mapped_steps(
                                    from_song.phrases@[p].steps@,
                                    instrument_mapping.mapping@,
                                );
                                ||| (to_song.phrases@[phrase_mapping@[p] as int].steps@ == mapped
                                    && !to_move@.contains(p as u8))
                                ||| (to_move@.contains(p as u8) && forall|t: int|
                                    0 <= t < 255 ==> (#[trigger] to_song.phrases@[t]).steps@
                                        != mapped)
                            },
                        forall|j: int| 0 <= j < to_move@.len() ==> seen_phrase@[(
                        #[trigger] to_move@[j]) as int],
                        forall|j: int|
                            0 <= j < to_move@.len() ==> {
                                let slot = phrase_mapping@[(#[trigger] to_move@[j]) as int] as int;
                                &&& allocated_phrases@[slot]
                                &&& !((exists|c: int|
                                    0 <= c < 255 && chain_refs_phrase(
                                        (#[trigger] to_song.chains@[c]).steps@,
                                        slot,
                                    )) || !phrase_is_empty(to_song.phrases@[slot]))
                            },
                        forall|j1: int, j2: int|
                            0 <= j1 < j2 < to_move@.len()
                                ==> phrase_mapping@[#[trigger] to_move@[j1] as int]
                                != phrase_mapping@[#[trigger] to_move@[j2] as int],
                    decreases 16 - si,
                {
                    let phrase_ix = from_song.chains[chain_id].steps[si].phrase as usize;
                    if phrase_ix < N_PHRASES && !seen_phrase[phrase_ix] {
                        let ghost pre_seen = seen_phrase@;
                        let ghost pre_map = phrase_mapping@;
                        let ghost pre_moves = to_move@;
                        seen_phrase[phrase_ix] = true;
                        let phrase = from_song.phrases[phrase_ix].map_instruments(
                            instrument_mapping,
                        );
                        proof {
                            assert(from_song.chains@[chain_id as int].steps@[si as int].phrase
                                == phrase_ix as u8);
                            assert(chain_refs_phrase(
                                from_song.chains@[chain_id as int].steps@,
                                phrase_ix as int,
                            ));
                            assert(phrase_requested(
                                *from_song,
                                from_chains_ids@,
                                phrase_ix as int,
                            )) by {
                                assert(from_chains_ids@[ci as int] < 255 && chain_refs_phrase(
                                    from_song.chains@[from_chains_ids@[ci as int] as int].steps@,
                                    phrase_ix as int,
                                ));
                            }
                        }
                        match position_phrase(&to_song.phrases, &phrase.steps) {
                            Some(known) => {
                                phrase_mapping[phrase_ix] = known as u8;
                            },
                            None => {
                                match try_allocate(&allocated_phrases, phrase_ix as u8) {
                                    None => {
                                        proof {
                                            assert(phrase_requested(
                                                *from_song,
                                                from_chains_ids@,
                                                phrase_ix as int,
                                            ) && forall|t: int|
                                                0 <= t < 255 ==> (
                                                #[trigger] to_song.phrases@[t]).steps@
                                                    != crate::songs::phrase_mapped_steps(
                                                    from_song.phrases@[phrase_ix as int].steps@,
                                                    instrument_mapping.mapping@,
                                                ));
                                        }
                                        return Err(
                                            "No more available phrase slots for phrase".to_string(),
                                        );
                                    },
                                    Some(slot) => {
                                        to_move.push(phrase_ix as u8);
                                        allocated_phrases[slot] = true;
                                        phrase_mapping[phrase_ix] = slot as u8;
                                    },
                                }
                            },
                        }
                        proof {
                            let pid = phrase_ix as int;
                            assert forall|j: int| 0 <= j < pre_moves.len() implies
                                #[trigger] to_move@[j] == pre_moves[j] by {}
                            assert forall|c: u8| pre_moves.contains(c) implies to_move@.contains(
                                c,
                            ) by {
                                let j = choose|j: int|
                                    0 <= j < pre_moves.len() && pre_moves[j] == c;
                                assert(to_move@[j] == c);
                            }
                            assert forall|c: u8|
                                !pre_moves.contains(c) && c != phrase_ix as u8
                                    implies !to_move@.contains(c) by {
                                assert forall|j: int| 0 <= j < to_move@.len() implies to_move@[j]
                                    != c by {
                                    if j < pre_moves.len() {
                                        assert(to_move@[j] == pre_moves[j]);
                                        assert(pre_moves[j] != c);
                                    }
                                }
                            }
                            assert({
                                let mapped = crate::songs::phrase_mapped_steps(
                                    from_song.phrases@[pid].steps@,
                                    instrument_mapping.mapping@,
                                );
                                ||| (to_song.phrases@[phrase_mapping@[pid] as int].steps@
                                    == mapped && !to_move@.contains(pid as u8))
                                ||| (to_move@.contains(pid as u8) && forall|t: int|
                                    0 <= t < 255 ==> (#[trigger] to_song.phrases@[t]).steps@
                                        != mapped)
                            }) by {
                                if to_move@.len() > pre_moves.len() {
                                    assert(to_move@[to_move@.len() - 1] == pid as u8);
                                    assert(to_move@.contains(pid as u8));
                                } else {
                                    assert(!pre_moves.contains(pid as u8));
                                    assert(!to_move@.contains(pid as u8));
                                }
                            }
                            assert forall|p: int| 0 <= p < 255 && #[trigger] seen_phrase@[p]
                                implies ({
                                let mapped = crate::songs::phrase_mapped_steps(
                                    from_song.phrases@[p].steps@,
                                    instrument_mapping.mapping@,
                                );
                                ||| (to_song.phrases@[phrase_mapping@[p] as int].steps@ == mapped
                                    && !to_move@.contains(p as u8))
                                ||| (to_move@.contains(p as u8) && forall|t: int|
                                    0 <= t < 255 ==> (#[trigger] to_song.phrases@[t]).steps@
                                        != mapped)
                            }) by {
                                if p != pid {
                                    assert(pre_seen[p]);
                                    assert(phrase_mapping@[p] == pre_map[p]);
                                }
                            }
                            assert forall|j: int| 0 <= j < to_move@.len() implies ({
                                let slot = phrase_mapping@[(#[trigger] to_move@[j]) as int] as int;
                                &&& allocated_phrases@[slot]
                                &&& !((exists|c: int|
                                    0 <= c < 255 && chain_refs_phrase(
                                        (#[trigger] to_song.chains@[c]).steps@,
                                        slot,
                                    )) || !phrase_is_empty(to_song.phrases@[slot]))
                            }) by {
                                if j < pre_moves.len() {
                                    assert(to_move@[j] == pre_moves[j]);
                                    assert(pre_moves[j] != phrase_ix as u8);
                                    assert(phrase_mapping@[pre_moves[j] as int] == pre_map[
                                        pre_moves[j] as int]);
                                }
                            }
                            assert forall|j1: int, j2: int|
                                0 <= j1 < j2 < to_move@.len()
                                    implies phrase_mapping@[#[trigger] to_move@[j1] as int]
                                    != phrase_mapping@[#[trigger] to_move@[j2] as int] by {
                                if j2 < pre_moves.len() {
                                } else {
                                    assert(j2 == to_move@.len() - 1);
                                    assert(to_move@[j1] == pre_moves[j1]);
                                }
                            }
                        }
                    }
                    si = si + 1;
                }
            }
            proof {
                assert forall|k: int|
                    0 <= k < ci + 1 implies (#[trigger] from_chains_ids@[k]) < 255 ==> forall|
                        p: int,
                    |
                        0 <= p < 255 && chain_refs_phrase(
                            from_song.chains@[from_chains_ids@[k] as int].steps@,
                            p,
                        ) ==> seen_phrase@[p] by {
                    if k == ci as int && from_chains_ids@[k] < 255 {
                        assert forall|p: int|
                            0 <= p < 255 && chain_refs_phrase(
                                from_song.chains@[from_chains_ids@[k] as int].steps@,
                                p,
                            ) implies seen_phrase@[p] by {
                            let t = choose|t: int|
                                0 <= t < 16 && (#[trigger] from_song.chains@[from_chains_ids@[
                                    k] as int].steps@[t]).phrase == p;
                            assert(from_song.chains@[chain_id as int].steps@[t].phrase < 255);
                        }
                    }
                }
            }
            ci = ci + 1;
        }
        proof {
            assert forall|p: int|
                0 <= p < 255 && phrase_requested(*from_song, from_chains_ids@, p)
                    implies seen_phrase@[p] by {
                let k = choose|k: int|
                    0 <= k < from_chains_ids@.len() && (#[trigger] from_chains_ids@[k]) < 255
                        && chain_refs_phrase(
                        from_song.chains@[from_chains_ids@[k] as int].steps@,
                        p,
                    );
            }
            assert forall|p: int|
                0 <= p < 255 && phrase_requested(*from_song, from_chains_ids@, p) implies ({
                let mapped = crate::songs::phrase_mapped_steps(
                    from_song.phrases@[p].steps@,
                    instrument_mapping.mapping@,
                );
                ||| (to_song.phrases@[phrase_mapping@[p] as int].steps@ == mapped
                    && !to_move@.contains(p as u8))
                ||| (to_move@.contains(p as u8) && forall|t: int|
                    0 <= t < 255 ==> (#[trigger] to_song.phrases@[t]).steps@ != mapped)
            }) by {
                assert(seen_phrase@[p]);
            }
            assert forall|p: int|
                0 <= p < 255 && !phrase_requested(*from_song, from_chains_ids@, p)
                    implies phrase_mapping@[p] == 0 && !to_move@.contains(p as u8) by {
                assert(!seen_phrase@[p]);
            }
            assert forall|j: int| 0 <= j < to_move@.len() implies phrase_requested(
                *from_song,
                from_chains_ids@,
                (#[trigger] to_move@[j]) as int,
            ) by {
                assert(seen_phrase@[to_move@[j] as int]);
            }
        }
        Ok(PhraseMapping { mapping: phrase_mapping, to_move })
    }

    /// Find destination slots for the requested chains themselves, after
    /// renumbering their phrase references through the second pass's
    /// mapping.  Each requested chain either reuses a structurally equal
    /// destination chain, or is queued for a move into a slot no
    /// referenced chain occupies; distinct moves never share a target, and
    /// chains outside the request keep their numbers.
    fn allocate_chains(
        from_song: &crate::songs::Song,
        to_song: &crate::songs::Song,
        phrase_mapping: &PhraseMapping,
        from_chains_ids: &Vec<u8>,
    ) -> (r: Result<ChainMapping, String>)
        requires
            crate::songs::song_wf(*from_song),
            crate::songs::song_wf(*to_song),
            phrase_mapping.mapping@.len() == 255,
        ensures
            r matches Ok(cm) ==> chain_pass_ok(
                *from_song,
                *to_song,
                phrase_mapping.mapping@,
                from_chains_ids@,
                cm,
            ),
            r is Err ==> chain_pass_exhausted(
                *from_song,
                *to_song,
                phrase_mapping.mapping@,
                from_chains_ids@,
            ),
    {
        let mut seen_chain: Vec<bool> = Vec::new();
        let mut k: usize = 0;
        while k < 255
            invariant
                k <= 255,
                seen_chain@.len() == k,
                forall|c: int| 0 <= c < k ==> !(#[trigger] seen_chain@[c]),
            decreases 255 - k,
        {
            seen_chain.push(false);
            k = k + 1;
        }
        let mut allocated_chains = find_referenced_chains(to_song);
        let mut mapping = make_mapping(N_CHAINS, 0);
        proof {
            assert forall|i: int| 0 <= i < 255 implies #[trigger] mapping@[i] < 255 by {
                assert(mapping@[i] == (i + 0) as u8);
            }
            assert forall|i: int| 0 <= i < 255 implies #[trigger] mapping@[i] == i by {
                assert(mapping@[i] == (i + 0) as u8);
            }
        }
        let mut to_move: Vec<u8> = Vec::new();
        let n_ids = from_chains_ids.len();
        let mut ci: usize = 0;
        while ci < n_ids
            invariant
                crate::songs::song_wf(*from_song),
                crate::songs::song_wf(*to_song),
                phrase_mapping.mapping@.len() == 255,
                n_ids == from_chains_ids@.len(),
                ci <= n_ids,
                seen_chain@.len() == 255,
                allocated_chains@.len() == 255,
                mapping@.len() == 255,
                forall|i: int| 0 <= i < 255 ==> #[trigger] mapping@[i] < 255,
                forall|i: int| 0 <= i < to_move@.len() ==> #[trigger] to_move@[i] < 255,
                // a destination slot holding a referenced chain stays allocated
                forall|t: int|
                    0 <= t < 255 && ((exists|g: int|
                        0 <= g < 2048 && to_song.song.steps@[g] == t) || !chain_is_empty(
                        to_song.chains@[t],
                    )) ==> #[trigger] allocated_chains@[t],
                // chains seen so far came from the processed prefix
                forall|c: int| 0 <= c < 255 && #[trigger] seen_chain@[c] ==> exists|k: int|
                    0 <= k < ci && from_chains_ids@[k] == c,
                // the processed prefix is covered by the seen set
                forall|k: int|
                    0 <= k < ci ==> (#[trigger] from_chains_ids@[k]) < 255 ==> seen_chain@[
                        from_chains_ids@[k] as int],
                // unseen chains keep the identity mapping and are not queued
                forall|c: int|
                    0 <= c < 255 && !seen_chain@[c] ==> #[trigger] mapping@[c] == c
                        && !to_move@.contains(c as u8),
                // every seen chain is resolved: dedup hit, or queued fresh
                forall|c: int|
                    0 <= c < 255 && #[trigger] seen_chain@[c] ==> {
                        let mapped = crate::songs::chain_mapped_steps(
                            from_song.chains@[c].steps@,
                            phrase_mapping.mapping@,
                        );
                        ||| (to_song.chains@[mapping@[c] as int].steps@ == mapped
                            && !to_move@.contains(c as u8))
                        ||| (to_move@.contains(c as u8) && forall|t: int|
                            0 <= t < 255 ==> (#[trigger] to_song.chains@[t]).steps@ != mapped)
                    },
                // queued moves: requested, seen, targets allocated and free
                // of referenced chains
                forall|j: int| 0 <= j < to_move@.len() ==> seen_chain@[(
                #[trigger] to_move@[j]) as int],
                forall|j: int|
                    0 <= j < to_move@.len() ==> {
                        let slot = mapping@[(#[trigger] to_move@[j]) as int] as int;
                        &&& allocated_chains@[slot]
                        &&& !((exists|g: int| 0 <= g < 2048 && to_song.song.steps@[g] == slot)
                            || !chain_is_empty(to_song.chains@[slot]))
                    },
                forall|j1: int, j2: int|
                    0 <= j1 < j2 < to_move@.len() ==> mapping@[#[trigger] to_move@[j1] as int]
                        != mapping@[#[trigger] to_move@[j2] as int],
            decreases n_ids - ci,
        {
            let chain_id = from_chains_ids[ci] as usize;
            if chain_id < N_CHAINS && !seen_chain[chain_id] {
                let ghost pre_seen = seen_chain@;
                let ghost pre_map = mapping@;
                let ghost pre_moves = to_move@;
                seen_chain[chain_id] = true;
                let to_chain = from_song.chains[chain_id].map(phrase_mapping);
                proof {
                    assert(to_chain.steps@ == crate::songs::chain_mapped_steps(
                        from_song.chains@[chain_id as int].steps@,
                        phrase_mapping.mapping@,
                    ));
                }
                match position_chain(&to_song.chains, &to_chain.steps) {
                    Some(c) => {
                        mapping[chain_id] = c as u8;
                    },
                    None => {
                        match try_allocate(&allocated_chains, chain_id as u8) {
                            None => {
                                proof {
                                    let i = ci as int;
                                    assert(0 <= i < from_chains_ids@.len()
                                        && from_chains_ids@[i] < 255 && forall|t: int|
                                        0 <= t < 255 ==> (#[trigger] to_song.chains@[t]).steps@
                                            != crate::songs::chain_mapped_steps(
                                            from_song.chains@[from_chains_ids@[i] as int].steps@,
                                            phrase_mapping.mapping@,
                                        ));
                                }
                                return Err(
                                    "No more available chain slots for chain".to_string(),
                                );
                            },
                            Some(free_slot) => {
                                allocated_chains[free_slot] = true;
                                mapping[chain_id] = free_slot as u8;
                                to_move.push(chain_id as u8);
                            },
                        }
                    },
                }
                proof {
                    let cid = chain_id as int;
                    assert forall|c: int| 0 <= c < 255 && #[trigger] seen_chain@[c] implies exists|
                        k: int,
                    | 0 <= k < ci + 1 && from_chains_ids@[k] == c by {
                        if pre_seen[c] {
                            let k = choose|k: int| 0 <= k < ci && from_chains_ids@[k] == c;
                            assert(0 <= k < ci + 1 && from_chains_ids@[k] == c);
                        } else {
                            assert(from_chains_ids@[ci as int] == c);
                        }
                    }
                    // queue membership transfers across the optional push
                    assert forall|j: int| 0 <= j < pre_moves.len() implies #[trigger] to_move@[j]
                        == pre_moves[j] by {}
                    assert forall|c: u8| pre_moves.contains(c) implies to_move@.contains(c) by {
                        let j = choose|j: int| 0 <= j < pre_moves.len() && pre_moves[j] == c;
                        assert(to_move@[j] == c);
                    }
                    assert forall|c: u8|
                        !pre_moves.contains(c) && c != chain_id as u8 implies !to_move@.contains(
                        c,
                    ) by {
                        assert forall|j: int| 0 <= j < to_move@.len() implies to_move@[j] != c by {
                            if j < pre_moves.len() {
                                assert(to_move@[j] == pre_moves[j]);
                                assert(pre_moves[j] != c);
                            }
                        }
                    }
                    // the chain handled this iteration is resolved
                    assert({
                        let mapped = crate::songs::chain_mapped_steps(
                            from_song.chains@[cid].steps@,
                            phrase_mapping.mapping@,
                        );
                        ||| (to_song.chains@[mapping@[cid] as int].steps@ == mapped
                            && !to_move@.contains(cid as u8))
                        ||| (to_move@.contains(cid as u8) && forall|t: int|
                            0 <= t < 255 ==> (#[trigger] to_song.chains@[t]).steps@ != mapped)
                    }) by {
                        if to_move@.len() > pre_moves.len() {
                            assert(to_move@[to_move@.len() - 1] == cid as u8);
                            assert(to_move@.contains(cid as u8));
                        } else {
                            assert(!pre_moves.contains(cid as u8));
                            assert(!to_move@.contains(cid as u8));
                        }
                    }
                    // previously resolved chains stay resolved
                    assert forall|c: int| 0 <= c < 255 && #[trigger] seen_chain@[c] implies ({
                        let mapped = crate::songs::chain_mapped_steps(
                            from_song.chains@[c].steps@,
                            phrase_mapping.mapping@,
                        );
                        ||| (to_song.chains@[mapping@[c] as int].steps@ == mapped
                            && !to_move@.contains(c as u8))
                        ||| (to_move@.contains(c as u8) && forall|t: int|
                            0 <= t < 255 ==> (#[trigger] to_song.chains@[t]).steps@ != mapped)
                    }) by {
                        if c != cid {
                            assert(pre_seen[c]);
                            assert(mapping@[c] == pre_map[c]);
                        }
                    }
                    // queued targets stay allocated, unreferenced, distinct
                    assert forall|j: int| 0 <= j < to_move@.len() implies ({
                        let slot = mapping@[(#[trigger] to_move@[j]) as int] as int;
                        &&& allocated_chains@[slot]
                        &&& !((exists|g: int| 0 <= g < 2048 && to_song.song.steps@[g] == slot)
                            || !chain_is_empty(to_song.chains@[slot]))
                    }) by {
                        if j < pre_moves.len() {
                            assert(to_move@[j] == pre_moves[j]);
                            assert(pre_moves[j] != chain_id as u8);
                            assert(mapping@[pre_moves[j] as int] == pre_map[pre_moves[j] as int]);
                        }
                    }
                    assert forall|j1: int, j2: int|
                        0 <= j1 < j2 < to_move@.len() implies mapping@[#[trigger] to_move@[j1] as int]
                        != mapping@[#[trigger] to_move@[j2] as int] by {
                        if j2 < pre_moves.len() {
                        } else {
                            assert(j2 == to_move@.len() - 1);
                            assert(to_move@[j1] == pre_moves[j1]);
                        }
                    }
                }
            }
            ci = ci + 1;
        }
        Ok(ChainMapping { mapping, to_move })
    }

    /// Compute the full remapping plan for transplanting `chains` from one
    /// song into another: EQs and instruments first, then phrases, then
    /// chains, each pass consuming the previous pass's mapping.  Tables
    /// keep the identity mapping.  Neither song is modified.  On success
    /// the phrase and chain mappings deduplicate against the destination
    /// and allocate only free slots, as their pass contracts state; an
    /// error occurs only when some pass genuinely runs out of room for a
    /// reachable entity, and aborts before any mutation.
    pub fn create(
        from_song: &crate::songs::Song,
        to_song: &crate::songs::Song,
        chains: &Vec<u8>,
    ) -> (r: Result<Remapper, String>)
        requires
            crate::songs::song_wf(*from_song),
            forall|i: int|
                0 <= i < 128 ==> ((#[trigger] from_song.instruments@[i]).spec_equ() matches Some(
                    e,
                ) ==> e < 32 ==> (e as int) < from_song.eqs@.len()),
            crate::songs::song_wf(*to_song),
        ensures
            r matches Ok(rm) ==> ({
                &&& remapper_wf(rm)
                &&& eq_instr_pass_ok(
                    *from_song,
                    *to_song,
                    chains@,
                    rm.eq_mapping,
                    rm.instrument_mapping,
                )
                &&& phrase_pass_ok(
                    *from_song,
                    *to_song,
                    rm.instrument_mapping.mapping@,
                    chains@,
                    rm.phrase_mapping,
                )
                &&& chain_pass_ok(
                    *from_song,
                    *to_song,
                    rm.phrase_mapping.mapping@,
                    chains@,
                    rm.chain_mapping,
                )
                &&& rm.table_mapping.mapping@ == spec_identity_mapping(256, 0)
                &&& rm.table_mapping.to_move@.len() == 0
            }),
            r is Err ==> ({
                ||| eq_instr_pass_exhausted(*from_song, *to_song, chains@)
                ||| exists|imm: Seq<u8>|
                    imm.len() == 128 && #[trigger] phrase_pass_exhausted(
                        *from_song,
                        *to_song,
                        imm,
                        chains@,
                    )
                ||| exists|pmm: Seq<u8>|
                    pmm.len() == 255 && #[trigger] chain_pass_exhausted(
                        *from_song,
                        *to_song,
                        pmm,
                        chains@,
                    )
            }),
    {
        let (eq_mapping, instrument_mapping) = match Self::allocate_eq_and_instruments(
            from_song,
            to_song,
            chains,
        ) {
            Ok(m) => m,
            Err(e) => {
                return Err(e);
            },
        };
        let phrase_mapping = match Self::allocate_phrases(
            from_song,
            to_song,
            &instrument_mapping,
            chains,
        ) {
            Ok(m) => m,
            Err(e) => {
                proof {
                    assert(instrument_mapping.mapping@.len() == 128 && phrase_pass_exhausted(
                        *from_song,
                        *to_song,
                        instrument_mapping.mapping@,
                        chains@,
                    ));
                }
                return Err(e);
            },
        };
        let chain_mapping = match Self::allocate_chains(
            from_song,
            to_song,
            &phrase_mapping,
            chains,
        ) {
            Ok(m) => m,
            Err(e) => {
                proof {
                    assert(phrase_mapping.mapping@.len() == 255 && chain_pass_exhausted(
                        *from_song,
                        *to_song,
                        phrase_mapping.mapping@,
                        chains@,
                    ));
                }
                return Err(e);
            },
        };
        let table_mapping = TableMapping::default();
        Ok(Self { eq_mapping, instrument_mapping, table_mapping, phrase_mapping, chain_mapping })
    }
}

} // verus!

verus! {

/// The last queued move that targets destination slot `t`, as the source
/// slot it moves; `None` when no move targets `t`.  Later entries of
/// `to_move` win, as the later copy overwrites the earlier one.
pub open spec fn last_move_source(to_move: Seq<u8>, mapping: Seq<u8>, t: int) -> Option<u8>
    decreases to_move.len(),
{
    if to_move.len() == 0 {
        None
    } else if mapping[to_move.last() as int] as int == t {
        Some(to_move.last())
    } else {
        last_move_source(to_move.drop_last(), mapping, t)
    }
}

/// An instrument as `apply` plants it in the destination: its EQ
/// reference, when it points at an instrument-assignable slot, rewritten
/// through the EQ mapping.
pub open spec fn inst_applied(inst: Instrument, eq_map: Seq<u8>) -> Instrument {
    match inst.spec_equ() {
        Some(e) => if e < 32 {
            inst.spec_set_eq(eq_map[e as int])
        } else {
            inst
        },
        None => inst,
    }
}

/// A slot sequence after the queued moves of an in-place renumbering:
/// each move, in order, copies the source slot (as it stands after the
/// earlier moves) to its mapped target, then resets the source slot to
/// `cleared`.
pub open spec fn slots_renumbered<T>(s: Seq<T>, to_move: Seq<u8>, mapping: Seq<u8>, cleared: T) -> Seq<T>
    decreases to_move.len(),
{
    if to_move.len() == 0 {
        s
    } else {
        let prev = slots_renumbered(s, to_move.drop_last(), mapping, cleared);
        let m = to_move.last() as int;
        prev.update(mapping[m] as int, prev[m]).update(m, cleared)
    }
}

/// The renumbering fold never changes the slot count.
pub proof fn lemma_slots_renumbered_len<T>(s: Seq<T>, tm: Seq<u8>, mp: Seq<u8>, cleared: T)
    requires
        forall|j: int|
            0 <= j < tm.len() ==> ((#[trigger] tm[j]) as int) < s.len() && (tm[j] as int)
                < mp.len() && (mp[tm[j] as int] as int) < s.len(),
    ensures
        slots_renumbered(s, tm, mp, cleared).len() == s.len(),
    decreases tm.len(),
{
    if tm.len() > 0 {
        assert forall|j: int|
            0 <= j < tm.drop_last().len() implies ((#[trigger] tm.drop_last()[j]) as int)
                < s.len() && (tm.drop_last()[j] as int) < mp.len() && (mp[tm.drop_last()[
            j] as int] as int) < s.len() by {
            assert(tm.drop_last()[j] == tm[j]);
        }
        lemma_slots_renumbered_len(s, tm.drop_last(), mp, cleared);
    }
}

/// A slot sequence after copy-only moves: each move copies the source
/// slot to its mapped target without clearing the source.  This is how a
/// renumbering carries each moved instrument's table along.
pub open spec fn slots_copied<T>(s: Seq<T>, to_move: Seq<u8>, mapping: Seq<u8>) -> Seq<T>
    decreases to_move.len(),
{
    if to_move.len() == 0 {
        s
    } else {
        let prev = slots_copied(s, to_move.drop_last(), mapping);
        let m = to_move.last() as int;
        prev.update(mapping[m] as int, prev[m])
    }
}

/// Step views of a table sequence.
pub open spec fn table_views(ts: Seq<crate::songs::Table>) -> Seq<Seq<crate::songs::TableStep>> {
    Seq::new(ts.len(), |i: int| ts[i].steps@)
}

/// Step views of a phrase sequence.
pub open spec fn phrase_views(ps: Seq<Phrase>) -> Seq<Seq<Step>> {
    Seq::new(ps.len(), |i: int| ps[i].steps@)
}

/// Step views of a chain sequence.
pub open spec fn chain_views(cs: Seq<Chain>) -> Seq<Seq<ChainStep>> {
    Seq::new(cs.len(), |i: int| cs[i].steps@)
}

/// The rows of a cleared table.
pub open spec fn cleared_table_steps() -> Seq<crate::songs::TableStep> {
    Seq::new(16, |i: int| crate::songs::table_step_default())
}

/// The rows of a cleared phrase.
pub open spec fn cleared_phrase_steps() -> Seq<Step> {
    Seq::new(16, |i: int| crate::songs::step_default())
}

/// The rows of a cleared chain.
pub open spec fn cleared_chain_steps() -> Seq<ChainStep> {
    Seq::new(16, |i: int| crate::songs::chain_step_default())
}

/// Everything a remapping never touches is unchanged: the header fields,
/// the song grid, grooves, scales and all settings.
pub open spec fn song_rest_unchanged(a: crate::songs::Song, b: crate::songs::Song) -> bool {
    &&& a.version == b.version
    &&& a.directory == b.directory
    &&& a.transpose == b.transpose
    &&& a.tempo == b.tempo
    &&& a.quantize == b.quantize
    &&& a.name == b.name
    &&& a.key == b.key
    &&& a.song == b.song
    &&& a.grooves == b.grooves
    &&& a.scales == b.scales
    &&& a.mixer_settings == b.mixer_settings
    &&& a.effects_settings == b.effects_settings
    &&& a.midi_settings == b.midi_settings
    &&& a.midi_mappings == b.midi_mappings
}

impl Remapper {
    /// Apply the plan: copy the resolved EQs, instruments (with their
    /// tables), phrases and chains from a distinct source song into the
    /// destination at their mapped slots, renumbering the references each
    /// carries.  The contract gives the outcome slot by slot: a slot some
    /// move targets receives the (renumbered) source entity of the last
    /// such move, and every other slot keeps the destination's entity.
    /// The source is untouched.
    pub fn apply(&self, from: &crate::songs::Song, to: &mut crate::songs::Song)
        requires
            remapper_wf(*self),
            crate::songs::song_wf(*from),
            crate::songs::song_wf(*old(to)),
            from.version == old(to).version,
            self.eq_mapping.to_move@.len() > 0 ==> from.eqs@.len() >= 32 && old(to).eqs@.len()
                >= 32,
        ensures
            crate::songs::song_wf(*final(to)),
            final(to).eqs@.len() == old(to).eqs@.len(),
            song_rest_unchanged(*final(to), *old(to)),
            forall|t: int|
                0 <= t < old(to).eqs@.len() ==> #[trigger] final(to).eqs@[t] == (match
                    last_move_source(self.eq_mapping.to_move@, self.eq_mapping.mapping@, t) {
                    Some(m) => from.eqs@[m as int],
                    None => old(to).eqs@[t],
                }),
            forall|t: int|
                0 <= t < 128 ==> {
                    let v = #[trigger] final(to).instruments@[t];
                    match last_move_source(
                        self.instrument_mapping.to_move@,
                        self.instrument_mapping.mapping@,
                        t,
                    ) {
                        Some(m) => crate::instruments::inst_equiv(
                            v,
                            inst_applied(from.instruments@[m as int], self.eq_mapping.mapping@),
                        ),
                        None => v == old(to).instruments@[t],
                    }
                },
            forall|t: int|
                0 <= t < 256 ==> {
                    let v = #[trigger] final(to).tables@[t];
                    match last_move_source(
                        self.table_mapping.to_move@,
                        self.table_mapping.mapping@,
                        t,
                    ) {
                        Some(m) => v.steps@ == from.tables@[m as int].steps@,
                        None => match last_move_source(
                            self.instrument_mapping.to_move@,
                            self.instrument_mapping.mapping@,
                            t,
                        ) {
                            Some(m) => v.steps@ == from.tables@[m as int].steps@,
                            None => v == old(to).tables@[t],
                        },
                    }
                },
            forall|t: int|
                0 <= t < 255 ==> {
                    let v = #[trigger] final(to).phrases@[t];
                    match last_move_source(
                        self.phrase_mapping.to_move@,
                        self.phrase_mapping.mapping@,
                        t,
                    ) {
                        Some(m) => v.steps@ == crate::songs::phrase_mapped_steps(
                            from.phrases@[m as int].steps@,
                            self.instrument_mapping.mapping@,
                        ),
                        None => v == old(to).phrases@[t],
                    }
                },
            forall|t: int|
                0 <= t < 255 ==> {
                    let v = #[trigger] final(to).chains@[t];
                    match last_move_source(
                        self.chain_mapping.to_move@,
                        self.chain_mapping.mapping@,
                        t,
                    ) {
                        Some(m) => v.steps@ == crate::songs::chain_mapped_steps(
                            from.chains@[m as int].steps@,
                            self.phrase_mapping.mapping@,
                        ),
                        None => v == old(to).chains@[t],
                    }
                },
    {
        let n = self.eq_mapping.to_move.len();
        let mut i: usize = 0;
        while i < n
            invariant
                remapper_wf(*self),
                crate::songs::song_wf(*from),
                crate::songs::song_wf(*to),
                to.eqs@.len() == old(to).eqs@.len(),
                n > 0 ==> from.eqs@.len() >= 32 && to.eqs@.len() >= 32,
                song_rest_unchanged(*to, *old(to)),
                to.instruments@ == old(to).instruments@,
                to.tables@ == old(to).tables@,
                to.phrases@ == old(to).phrases@,
                to.chains@ == old(to).chains@,
                n == self.eq_mapping.to_move@.len(),
                i <= n,
                forall|t: int|
                    0 <= t < old(to).eqs@.len() ==> #[trigger] to.eqs@[t] == (match
                        last_move_source(
                        self.eq_mapping.to_move@.subrange(0, i as int),
                        self.eq_mapping.mapping@,
                        t,
                    ) {
                        Some(m) => from.eqs@[m as int],
                        None => old(to).eqs@[t],
                    }),
            decreases n - i,
        {
            let ghost pre = to.eqs@;
            let equ = self.eq_mapping.to_move[i] as usize;
            let to_index = self.eq_mapping.mapping[equ] as usize;
            to.eqs[to_index] = from.eqs[equ];
            proof {
                let tmv = self.eq_mapping.to_move@;
                let mp = self.eq_mapping.mapping@;
                let cur = tmv.subrange(0, i + 1);
                assert(cur.drop_last() =~= tmv.subrange(0, i as int));
                assert(cur.last() == tmv[i as int]);
                assert forall|t: int| 0 <= t < old(to).eqs@.len() implies #[trigger] to.eqs@[t]
                    == (match last_move_source(cur, mp, t) {
                    Some(m) => from.eqs@[m as int],
                    None => old(to).eqs@[t],
                }) by {
                    if mp[tmv[i as int] as int] as int == t {
                        assert(last_move_source(cur, mp, t) == Some(tmv[i as int]));
                    } else {
                        assert(last_move_source(cur, mp, t) == last_move_source(
                            tmv.subrange(0, i as int),
                            mp,
                            t,
                        ));
                        assert(to.eqs@[t] == pre[t]);
                    }
                }
            }
            i = i + 1;
        }
        proof {
            assert(self.eq_mapping.to_move@.subrange(0, n as int) =~= self.eq_mapping.to_move@);
        }
        let n = self.instrument_mapping.to_move.len();
        let mut i: usize = 0;
        while i < n
            invariant
                remapper_wf(*self),
                crate::songs::song_wf(*from),
                crate::songs::song_wf(*to),
                to.eqs@.len() == old(to).eqs@.len(),
                song_rest_unchanged(*to, *old(to)),
                from.version == to.version,
                forall|t: int|
                    0 <= t < old(to).eqs@.len() ==> #[trigger] to.eqs@[t] == (match
                        last_move_source(self.eq_mapping.to_move@, self.eq_mapping.mapping@, t) {
                        Some(m) => from.eqs@[m as int],
                        None => old(to).eqs@[t],
                    }),
                to.phrases@ == old(to).phrases@,
                to.chains@ == old(to).chains@,
                n == self.instrument_mapping.to_move@.len(),
                i <= n,
                forall|t: int|
                    0 <= t < 128 ==> {
                        let v = #[trigger] to.instruments@[t];
                        match last_move_source(
                            self.instrument_mapping.to_move@.subrange(0, i as int),
                            self.instrument_mapping.mapping@,
                            t,
                        ) {
                            Some(m) => crate::instruments::inst_equiv(
                                v,
                                inst_applied(
                                    from.instruments@[m as int],
                                    self.eq_mapping.mapping@,
                                ),
                            ),
                            None => v == old(to).instruments@[t],
                        }
                    },
                forall|t: int|
                    0 <= t < 256 ==> {
                        let v = #[trigger] to.tables@[t];
                        match last_move_source(
                            self.instrument_mapping.to_move@.subrange(0, i as int),
                            self.instrument_mapping.mapping@,
                            t,
                        ) {
                            Some(m) => v.steps@ == from.tables@[m as int].steps@,
                            None => v == old(to).tables@[t],
                        }
                    },
            decreases n - i,
        {
            let ghost pre_instr = to.instruments@;
            let ghost pre_tables = to.tables@;
            let instr_id = self.instrument_mapping.to_move[i] as usize;
            let to_index = self.instrument_mapping.mapping[instr_id] as usize;
            let mut instr = crate::instruments::clone_instrument(&from.instruments[instr_id]);
            proof {
                if to.version.spec_at_least(4, 0) {
                    crate::instruments::lemma_inst_equiv_wf(
                        instr,
                        from.instruments@[instr_id as int],
                        to.version,
                    );
                }
                crate::instruments::lemma_inst_equiv_equ(
                    instr,
                    from.instruments@[instr_id as int],
                );
            }
            match instr.equ() {
                Some(eq8) => {
                    let eq = eq8 as usize;
                    if eq < N_INSTRUMENT_EQS {
                        proof {
                            if to.version.spec_at_least(4, 0) {
                                crate::instruments::lemma_set_eq_wf(
                                    instr,
                                    self.eq_mapping.mapping@[eq as int],
                                    to.version,
                                );
                            }
                            crate::instruments::lemma_set_eq_equiv(
                                instr,
                                from.instruments@[instr_id as int],
                                self.eq_mapping.mapping@[eq as int],
                            );
                        }
                        instr.set_eq(self.eq_mapping.mapping[eq]);
                    }
                },
                None => {},
            }
            proof {
                assert(crate::instruments::inst_equiv(
                    instr,
                    inst_applied(from.instruments@[instr_id as int], self.eq_mapping.mapping@),
                ));
            }
            to.tables[to_index] = crate::songs::clone_table(&from.tables[instr_id]);
            to.instruments[to_index] = instr;
            proof {
                let tmv = self.instrument_mapping.to_move@;
                let mp = self.instrument_mapping.mapping@;
                let cur = tmv.subrange(0, i + 1);
                assert(cur.drop_last() =~= tmv.subrange(0, i as int));
                assert(cur.last() == tmv[i as int]);
                assert forall|t: int| 0 <= t < 128 implies ({
                    let v = #[trigger] to.instruments@[t];
                    match last_move_source(cur, mp, t) {
                        Some(m) => crate::instruments::inst_equiv(
                            v,
                            inst_applied(from.instruments@[m as int], self.eq_mapping.mapping@),
                        ),
                        None => v == old(to).instruments@[t],
                    }
                }) by {
                    if mp[tmv[i as int] as int] as int == t {
                        assert(last_move_source(cur, mp, t) == Some(tmv[i as int]));
                    } else {
                        assert(last_move_source(cur, mp, t) == last_move_source(
                            tmv.subrange(0, i as int),
                            mp,
                            t,
                        ));
                        assert(to.instruments@[t] == pre_instr[t]);
                    }
                }
                assert forall|t: int| 0 <= t < 256 implies ({
                    let v = #[trigger] to.tables@[t];
                    match last_move_source(cur, mp, t) {
                        Some(m) => v.steps@ == from.tables@[m as int].steps@,
                        None => v == old(to).tables@[t],
                    }
                }) by {
                    if mp[tmv[i as int] as int] as int == t {
                        assert(last_move_source(cur, mp, t) == Some(tmv[i as int]));
                    } else {
                        assert(last_move_source(cur, mp, t) == last_move_source(
                            tmv.subrange(0, i as int),
                            mp,
                            t,
                        ));
                        assert(to.tables@[t] == pre_tables[t]);
                    }
                }
            }
            i = i + 1;
        }
        proof {
            assert(self.instrument_mapping.to_move@.subrange(0, n as int)
                =~= self.instrument_mapping.to_move@);
        }
        let n = self.table_mapping.to_move.len();
        let mut i: usize = 0;
        while i < n
            invariant
                remapper_wf(*self),
                crate::songs::song_wf(*from),
                crate::songs::song_wf(*to),
                to.eqs@.len() == old(to).eqs@.len(),
                song_rest_unchanged(*to, *old(to)),
                forall|t: int|
                    0 <= t < old(to).eqs@.len() ==> #[trigger] to.eqs@[t] == (match
                        last_move_source(self.eq_mapping.to_move@, self.eq_mapping.mapping@, t) {
                        Some(m) => from.eqs@[m as int],
                        None => old(to).eqs@[t],
                    }),
                forall|t: int|
                    0 <= t < 128 ==> {
                        let v = #[trigger] to.instruments@[t];
                        match last_move_source(
                            self.instrument_mapping.to_move@,
                            self.instrument_mapping.mapping@,
                            t,
                        ) {
                            Some(m) => crate::instruments::inst_equiv(
                                v,
                                inst_applied(
                                    from.instruments@[m as int],
                                    self.eq_mapping.mapping@,
                                ),
                            ),
                            None => v == old(to).instruments@[t],
                        }
                    },
                to.phrases@ == old(to).phrases@,
                to.chains@ == old(to).chains@,
                n == self.table_mapping.to_move@.len(),
                i <= n,
                forall|t: int|
                    0 <= t < 256 ==> {
                        let v = #[trigger] to.tables@[t];
                        match last_move_source(
                            self.table_mapping.to_move@.subrange(0, i as int),
                            self.table_mapping.mapping@,
                            t,
                        ) {
                            Some(m) => v.steps@ == from.tables@[m as int].steps@,
                            None => match last_move_source(
                                self.instrument_mapping.to_move@,
                                self.instrument_mapping.mapping@,
                                t,
                            ) {
                                Some(m) => v.steps@ == from.tables@[m as int].steps@,
                                None => v == old(to).tables@[t],
                            },
                        }
                    },
            decreases n - i,
        {
            let ghost pre_tables = to.tables@;
            let table_id = self.table_mapping.to_move[i] as usize;
            let to_index = self.table_mapping.mapping[table_id] as usize;
            to.tables[to_index] = crate::songs::clone_table(&from.tables[table_id]);
            proof {
                let tmv = self.table_mapping.to_move@;
                let mp = self.table_mapping.mapping@;
                let cur = tmv.subrange(0, i + 1);
                assert(cur.drop_last() =~= tmv.subrange(0, i as int));
                assert(cur.last() == tmv[i as int]);
                assert forall|t: int| 0 <= t < 256 implies ({
                    let v = #[trigger] to.tables@[t];
                    match last_move_source(cur, mp, t) {
                        Some(m) => v.steps@ == from.tables@[m as int].steps@,
                        None => match last_move_source(
                            self.instrument_mapping.to_move@,
                            self.instrument_mapping.mapping@,
                            t,
                        ) {
                            Some(m) => v.steps@ == from.tables@[m as int].steps@,
                            None => v == old(to).tables@[t],
                        },
                    }
                }) by {
                    if mp[tmv[i as int] as int] as int == t {
                        assert(last_move_source(cur, mp, t) == Some(tmv[i as int]));
                    } else {
                        assert(last_move_source(cur, mp, t) == last_move_source(
                            tmv.subrange(0, i as int),
                            mp,
                            t,
                        ));
                        assert(to.tables@[t] == pre_tables[t]);
                    }
                }
            }
            i = i + 1;
        }
        proof {
            assert(self.table_mapping.to_move@.subrange(0, n as int)
                =~= self.table_mapping.to_move@);
        }
        let n = self.phrase_mapping.to_move.len();
        let mut i: usize = 0;
        while i < n
            invariant
                remapper_wf(*self),
                crate::songs::song_wf(*from),
                crate::songs::song_wf(*to),
                to.eqs@.len() == old(to).eqs@.len(),
                song_rest_unchanged(*to, *old(to)),
                forall|t: int|
                    0 <= t < old(to).eqs@.len() ==> #[trigger] to.eqs@[t] == (match
                        last_move_source(self.eq_mapping.to_move@, self.eq_mapping.mapping@, t) {
                        Some(m) => from.eqs@[m as int],
                        None => old(to).eqs@[t],
                    }),
                forall|t: int|
                    0 <= t < 128 ==> {
                        let v = #[trigger] to.instruments@[t];
                        match last_move_source(
                            self.instrument_mapping.to_move@,
                            self.instrument_mapping.mapping@,
                            t,
                        ) {
                            Some(m) => crate::instruments::inst_equiv(
                                v,
                                inst_applied(
                                    from.instruments@[m as int],
                                    self.eq_mapping.mapping@,
                                ),
                            ),
                            None => v == old(to).instruments@[t],
                        }
                    },
                forall|t: int|
                    0 <= t < 256 ==> {
                        let v = #[trigger] to.tables@[t];
                        match last_move_source(
                            self.table_mapping.to_move@,
                            self.table_mapping.mapping@,
                            t,
                        ) {
                            Some(m) => v.steps@ == from.tables@[m as int].steps@,
                            None => match last_move_source(
                                self.instrument_mapping.to_move@,
                                self.instrument_mapping.mapping@,
                                t,
                            ) {
                                Some(m) => v.steps@ == from.tables@[m as int].steps@,
                                None => v == old(to).tables@[t],
                            },
                        }
                    },
                to.chains@ == old(to).chains@,
                n == self.phrase_mapping.to_move@.len(),
                i <= n,
                forall|t: int|
                    0 <= t < 255 ==> {
                        let v = #[trigger] to.phrases@[t];
                        match last_move_source(
                            self.phrase_mapping.to_move@.subrange(0, i as int),
                            self.phrase_mapping.mapping@,
                            t,
                        ) {
                            Some(m) => v.steps@ == crate::songs::phrase_mapped_steps(
                                from.phrases@[m as int].steps@,
                                self.instrument_mapping.mapping@,
                            ),
                            None => v == old(to).phrases@[t],
                        }
                    },
            decreases n - i,
        {
            let ghost pre = to.phrases@;
            let phrase_id = self.phrase_mapping.to_move[i] as usize;
            let to_index = self.phrase_mapping.mapping[phrase_id] as usize;
            to.phrases[to_index] = from.phrases[phrase_id].map_instruments(
                &self.instrument_mapping,
            );
            proof {
                let tmv = self.phrase_mapping.to_move@;
                let mp = self.phrase_mapping.mapping@;
                let cur = tmv.subrange(0, i + 1);
                assert(cur.drop_last() =~= tmv.subrange(0, i as int));
                assert(cur.last() == tmv[i as int]);
                assert forall|t: int| 0 <= t < 255 implies ({
                    let v = #[trigger] to.phrases@[t];
                    match last_move_source(cur, mp, t) {
                        Some(m) => v.steps@ == crate::songs::phrase_mapped_steps(
                            from.phrases@[m as int].steps@,
                            self.instrument_mapping.mapping@,
                        ),
                        None => v == old(to).phrases@[t],
                    }
                }) by {
                    if mp[tmv[i as int] as int] as int == t {
                        assert(last_move_source(cur, mp, t) == Some(tmv[i as int]));
                    } else {
                        assert(last_move_source(cur, mp, t) == last_move_source(
                            tmv.subrange(0, i as int),
                            mp,
                            t,
                        ));
                        assert(to.phrases@[t] == pre[t]);
                    }
                }
            }
            i = i + 1;
        }
        proof {
            assert(self.phrase_mapping.to_move@.subrange(0, n as int)
                =~= self.phrase_mapping.to_move@);
        }
        let n = self.chain_mapping.to_move.len();
        let mut i: usize = 0;
        while i < n
            invariant
                remapper_wf(*self),
                crate::songs::song_wf(*from),
                crate::songs::song_wf(*to),
                to.eqs@.len() == old(to).eqs@.len(),
                song_rest_unchanged(*to, *old(to)),
                forall|t: int|
                    0 <= t < old(to).eqs@.len() ==> #[trigger] to.eqs@[t] == (match
                        last_move_source(self.eq_mapping.to_move@, self.eq_mapping.mapping@, t) {
                        Some(m) => from.eqs@[m as int],
                        None => old(to).eqs@[t],
                    }),
                forall|t: int|
                    0 <= t < 128 ==> {
                        let v = #[trigger] to.instruments@[t];
                        match last_move_source(
                            self.instrument_mapping.to_move@,
                            self.instrument_mapping.mapping@,
                            t,
                        ) {
                            Some(m) => crate::instruments::inst_equiv(
                                v,
                                inst_applied(
                                    from.instruments@[m as int],
                                    self.eq_mapping.mapping@,
                                ),
                            ),
                            None => v == old(to).instruments@[t],
                        }
                    },
                forall|t: int|
                    0 <= t < 256 ==> {
                        let v = #[trigger] to.tables@[t];
                        match last_move_source(
                            self.table_mapping.to_move@,
                            self.table_mapping.mapping@,
                            t,
                        ) {
                            Some(m) => v.steps@ == from.tables@[m as int].steps@,
                            None => match last_move_source(
                                self.instrument_mapping.to_move@,
                                self.instrument_mapping.mapping@,
                                t,
                            ) {
                                Some(m) => v.steps@ == from.tables@[m as int].steps@,
                                None => v == old(to).tables@[t],
                            },
                        }
                    },
                forall|t: int|
                    0 <= t < 255 ==> {
                        let v = #[trigger] to.phrases@[t];
                        match last_move_source(
                            self.phrase_mapping.to_move@,
                            self.phrase_mapping.mapping@,
                            t,
                        ) {
                            Some(m) => v.steps@ == crate::songs::phrase_mapped_steps(
                                from.phrases@[m as int].steps@,
                                self.instrument_mapping.mapping@,
                            ),
                            None => v == old(to).phrases@[t],
                        }
                    },
                n == self.chain_mapping.to_move@.len(),
                i <= n,
                forall|t: int|
                    0 <= t < 255 ==> {
                        let v = #[trigger] to.chains@[t];
                        match last_move_source(
                            self.chain_mapping.to_move@.subrange(0, i as int),
                            self.chain_mapping.mapping@,
                            t,
                        ) {
                            Some(m) => v.steps@ == crate::songs::chain_mapped_steps(
                                from.chains@[m as int].steps@,
                                self.phrase_mapping.mapping@,
                            ),
                            None => v == old(to).chains@[t],
                        }
                    },
            decreases n - i,
        {
            let ghost pre = to.chains@;
            let chain_id = self.chain_mapping.to_move[i] as usize;
            let to_index = self.chain_mapping.mapping[chain_id] as usize;
            to.chains[to_index] = from.chains[chain_id].map(&self.phrase_mapping);
            proof {
                let tmv = self.chain_mapping.to_move@;
                let mp = self.chain_mapping.mapping@;
                let cur = tmv.subrange(0, i + 1);
                assert(cur.drop_last() =~= tmv.subrange(0, i as int));
                assert(cur.last() == tmv[i as int]);
                assert forall|t: int| 0 <= t < 255 implies ({
                    let v = #[trigger] to.chains@[t];
                    match last_move_source(cur, mp, t) {
                        Some(m) => v.steps@ == crate::songs::chain_mapped_steps(
                            from.chains@[m as int].steps@,
                            self.phrase_mapping.mapping@,
                        ),
                        None => v == old(to).chains@[t],
                    }
                }) by {
                    if mp[tmv[i as int] as int] as int == t {
                        assert(last_move_source(cur, mp, t) == Some(tmv[i as int]));
                    } else {
                        assert(last_move_source(cur, mp, t) == last_move_source(
                            tmv.subrange(0, i as int),
                            mp,
                            t,
                        ));
                        assert(to.chains@[t] == pre[t]);
                    }
                }
            }
            i = i + 1;
        }
        proof {
            assert(self.chain_mapping.to_move@.subrange(0, n as int)
                =~= self.chain_mapping.to_move@);
        }
    }

    /// Apply the plan within a single song: move each entity to its new
    /// slot and clear the old one, in strict EQ, instrument, table order,
    /// then renumber every reference — instrument EQ references, phrase
    /// step instruments, chain step phrases — while moving phrases and
    /// chains.  The contract gives the exact outcome: each collection
    /// equals the fold of its queued moves, with references renumbered
    /// through the mappings.
    pub fn renumber(&self, song: &mut crate::songs::Song)
        requires
            remapper_wf(*self),
            crate::songs::song_wf(*old(song)),
            self.eq_mapping.to_move@.len() > 0 ==> old(song).eqs@.len() >= 32,
        ensures
            crate::songs::song_wf(*final(song)),
            final(song).eqs@.len() == old(song).eqs@.len(),
            song_rest_unchanged(*final(song), *old(song)),
            final(song).eqs@ == slots_renumbered(
                old(song).eqs@,
                self.eq_mapping.to_move@,
                self.eq_mapping.mapping@,
                crate::eq::equ_default(),
            ),
            forall|t: int|
                0 <= t < 128 ==> crate::instruments::inst_equiv(
                    #[trigger] final(song).instruments@[t],
                    inst_applied(
                        slots_renumbered(
                            old(song).instruments@,
                            self.instrument_mapping.to_move@,
                            self.instrument_mapping.mapping@,
                            Instrument::Empty,
                        )[t],
                        self.eq_mapping.mapping@,
                    ),
                ),
            table_views(final(song).tables@) == slots_renumbered(
                slots_copied(
                    table_views(old(song).tables@),
                    self.instrument_mapping.to_move@,
                    self.instrument_mapping.mapping@,
                ),
                self.table_mapping.to_move@,
                self.table_mapping.mapping@,
                cleared_table_steps(),
            ),
            forall|p: int|
                0 <= p < 255 ==> (#[trigger] final(song).phrases@[p]).steps@
                    == crate::songs::phrase_mapped_steps(
                    slots_renumbered(
                        phrase_views(old(song).phrases@),
                        self.phrase_mapping.to_move@,
                        self.phrase_mapping.mapping@,
                        cleared_phrase_steps(),
                    )[p],
                    self.instrument_mapping.mapping@,
                ),
            forall|c: int|
                0 <= c < 255 ==> (#[trigger] final(song).chains@[c]).steps@
                    == crate::songs::chain_mapped_steps(
                    slots_renumbered(
                        chain_views(old(song).chains@),
                        self.chain_mapping.to_move@,
                        self.chain_mapping.mapping@,
                        cleared_chain_steps(),
                    )[c],
                    self.phrase_mapping.mapping@,
                ),
    {
        let ghost eq_spec = slots_renumbered(
            old(song).eqs@,
            self.eq_mapping.to_move@,
            self.eq_mapping.mapping@,
            crate::eq::equ_default(),
        );
        let n = self.eq_mapping.to_move.len();
        let mut i: usize = 0;
        while i < n
            invariant
                remapper_wf(*self),
                crate::songs::song_wf(*song),
                song.eqs@.len() == old(song).eqs@.len(),
                n > 0 ==> song.eqs@.len() >= 32,
                song_rest_unchanged(*song, *old(song)),
                song.instruments@ == old(song).instruments@,
                song.tables@ == old(song).tables@,
                song.phrases@ == old(song).phrases@,
                song.chains@ == old(song).chains@,
                n == self.eq_mapping.to_move@.len(),
                i <= n,
                song.eqs@ == slots_renumbered(
                    old(song).eqs@,
                    self.eq_mapping.to_move@.subrange(0, i as int),
                    self.eq_mapping.mapping@,
                    crate::eq::equ_default(),
                ),
            decreases n - i,
        {
            let ghost prev = song.eqs@;
            let equ = self.eq_mapping.to_move[i] as usize;
            let to_index = self.eq_mapping.mapping[equ] as usize;
            let moved = song.eqs[equ];
            song.eqs[to_index] = moved;
            let mut cleared = song.eqs[equ];
            cleared.clear();
            song.eqs[equ] = cleared;
            proof {
                let tmv = self.eq_mapping.to_move@;
                let mp = self.eq_mapping.mapping@;
                let cur = tmv.subrange(0, i + 1);
                assert(cur.drop_last() =~= tmv.subrange(0, i as int));
                assert(cur.last() == tmv[i as int]);
                assert(song.eqs@ =~= prev.update(to_index as int, prev[equ as int]).update(
                    equ as int,
                    crate::eq::equ_default(),
                ));
            }
            i = i + 1;
        }
        proof {
            assert(self.eq_mapping.to_move@.subrange(0, n as int) =~= self.eq_mapping.to_move@);
        }
        let ghost moved_instrs = slots_renumbered(
            old(song).instruments@,
            self.instrument_mapping.to_move@,
            self.instrument_mapping.mapping@,
            Instrument::Empty,
        );
        let n = self.instrument_mapping.to_move.len();
        let mut i: usize = 0;
        while i < n
            invariant
                remapper_wf(*self),
                crate::songs::song_wf(*song),
                song.eqs@.len() == old(song).eqs@.len(),
                song_rest_unchanged(*song, *old(song)),
                song.eqs@ == eq_spec,
                song.phrases@ == old(song).phrases@,
                song.chains@ == old(song).chains@,
                old(song).instruments@.len() == 128,
                old(song).tables@.len() == 256,
                n == self.instrument_mapping.to_move@.len(),
                i <= n,
                forall|t: int|
                    0 <= t < 128 ==> crate::instruments::inst_equiv(
                        #[trigger] song.instruments@[t],
                        slots_renumbered(
                            old(song).instruments@,
                            self.instrument_mapping.to_move@.subrange(0, i as int),
                            self.instrument_mapping.mapping@,
                            Instrument::Empty,
                        )[t],
                    ),
                table_views(song.tables@) == slots_copied(
                    table_views(old(song).tables@),
                    self.instrument_mapping.to_move@.subrange(0, i as int),
                    self.instrument_mapping.mapping@,
                ),
            decreases n - i,
        {
            let ghost prev_instr = song.instruments@;
            let ghost prev_tviews = table_views(song.tables@);
            let instr_id = self.instrument_mapping.to_move[i] as usize;
            let to_index = self.instrument_mapping.mapping[instr_id] as usize;
            let instr = crate::instruments::clone_instrument(&song.instruments[instr_id]);
            proof {
                if song.version.spec_at_least(4, 0) {
                    crate::instruments::lemma_inst_equiv_wf(
                        instr,
                        song.instruments@[instr_id as int],
                        song.version,
                    );
                }
            }
            song.tables[to_index] = crate::songs::clone_table(&song.tables[instr_id]);
            song.instruments[to_index] = instr;
            song.instruments[instr_id] = Instrument::Empty;
            proof {
                let tmv = self.instrument_mapping.to_move@;
                let mp = self.instrument_mapping.mapping@;
                let cur = tmv.subrange(0, i + 1);
                assert(cur.drop_last() =~= tmv.subrange(0, i as int));
                assert(cur.last() == tmv[i as int]);
                let spec_prev = slots_renumbered(
                    old(song).instruments@,
                    tmv.subrange(0, i as int),
                    mp,
                    Instrument::Empty,
                );
                let spec_cur = slots_renumbered(
                    old(song).instruments@,
                    cur,
                    mp,
                    Instrument::Empty,
                );
                assert forall|j: int|
                    0 <= j < cur.len() implies ((#[trigger] cur[j]) as int) < 128 && (
                cur[j] as int) < mp.len() && (mp[cur[j] as int] as int) < 128 by {
                    assert(cur[j] == tmv[j]);
                    assert(tmv[j] < 128);
                    assert(mp[tmv[j] as int] < 128);
                }
                assert forall|j: int|
                    0 <= j < tmv.subrange(0, i as int).len() implies ((#[trigger] tmv.subrange(
                    0,
                    i as int,
                )[j]) as int) < 128 && (tmv.subrange(0, i as int)[j] as int) < mp.len() && (mp[
                tmv.subrange(0, i as int)[j] as int] as int) < 128 by {
                    assert(tmv.subrange(0, i as int)[j] == tmv[j]);
                    assert(tmv[j] < 128);
                    assert(mp[tmv[j] as int] < 128);
                }
                lemma_slots_renumbered_len(
                    old(song).instruments@,
                    tmv.subrange(0, i as int),
                    mp,
                    Instrument::Empty,
                );
                lemma_slots_renumbered_len(old(song).instruments@, cur, mp, Instrument::Empty);
                assert(spec_cur == spec_prev.update(
                    mp[tmv[i as int] as int] as int,
                    spec_prev[tmv[i as int] as int],
                ).update(tmv[i as int] as int, Instrument::Empty));
                assert forall|t: int| 0 <= t < 128 implies crate::instruments::inst_equiv(
                    #[trigger] song.instruments@[t],
                    spec_cur[t],
                ) by {
                    if t == instr_id as int {
                    } else if t == to_index as int {
                        crate::instruments::lemma_inst_equiv_trans(
                            instr,
                            prev_instr[instr_id as int],
                            spec_prev[instr_id as int],
                        );
                    } else {
                        assert(song.instruments@[t] == prev_instr[t]);
                    }
                }
                let cviews = slots_copied(
                    table_views(old(song).tables@),
                    cur,
                    mp,
                );
                assert(table_views(song.tables@) =~= cviews) by {
                    assert(cviews == slots_copied(
                        table_views(old(song).tables@),
                        tmv.subrange(0, i as int),
                        mp,
                    ).update(mp[tmv[i as int] as int] as int, slots_copied(
                        table_views(old(song).tables@),
                        tmv.subrange(0, i as int),
                        mp,
                    )[tmv[i as int] as int]));
                    assert forall|t: int| 0 <= t < 256 implies table_views(song.tables@)[t]
                        == cviews[t] by {
                        if t == to_index as int {
                            assert(table_views(song.tables@)[t] == song.tables@[t].steps@);
                            assert(prev_tviews[instr_id as int] == song.tables@[t].steps@);
                        } else {
                            assert(song.tables@[t] == old(song).tables@.update(
                                to_index as int,
                                song.tables@[to_index as int],
                            )[t] || true);
                            assert(table_views(song.tables@)[t] == prev_tviews[t]);
                        }
                    }
                }
            }
            i = i + 1;
        }
        proof {
            assert(self.instrument_mapping.to_move@.subrange(0, n as int)
                =~= self.instrument_mapping.to_move@);
        }
        let ghost copied_tviews = slots_copied(
            table_views(old(song).tables@),
            self.instrument_mapping.to_move@,
            self.instrument_mapping.mapping@,
        );
        let n = self.table_mapping.to_move.len();
        let mut i: usize = 0;
        while i < n
            invariant
                remapper_wf(*self),
                crate::songs::song_wf(*song),
                song.eqs@.len() == old(song).eqs@.len(),
                song_rest_unchanged(*song, *old(song)),
                song.eqs@ == eq_spec,
                forall|t: int|
                    0 <= t < 128 ==> crate::instruments::inst_equiv(
                        #[trigger] song.instruments@[t],
                        moved_instrs[t],
                    ),
                song.phrases@ == old(song).phrases@,
                song.chains@ == old(song).chains@,
                n == self.table_mapping.to_move@.len(),
                i <= n,
                table_views(song.tables@) == slots_renumbered(
                    copied_tviews,
                    self.table_mapping.to_move@.subrange(0, i as int),
                    self.table_mapping.mapping@,
                    cleared_table_steps(),
                ),
            decreases n - i,
        {
            let ghost prev_tviews = table_views(song.tables@);
            let table_id = self.table_mapping.to_move[i] as usize;
            let to_index = self.table_mapping.mapping[table_id] as usize;
            let table = crate::songs::clone_table(&song.tables[table_id]);
            song.tables[to_index] = table;
            let mut cleared = crate::songs::clone_table(&song.tables[table_id]);
            cleared.clear();
            song.tables[table_id] = cleared;
            proof {
                let tmv = self.table_mapping.to_move@;
                let mp = self.table_mapping.mapping@;
                let cur = tmv.subrange(0, i + 1);
                assert(cur.drop_last() =~= tmv.subrange(0, i as int));
                assert(cur.last() == tmv[i as int]);
                assert(cleared.steps@ =~= cleared_table_steps());
                assert(table_views(song.tables@) =~= prev_tviews.update(
                    to_index as int,
                    prev_tviews[table_id as int],
                ).update(table_id as int, cleared_table_steps())) by {
                    assert forall|t: int| 0 <= t < 256 implies table_views(song.tables@)[t]
                        == prev_tviews.update(
                        to_index as int,
                        prev_tviews[table_id as int],
                    ).update(table_id as int, cleared_table_steps())[t] by {
                        assert(table_views(song.tables@)[t] == song.tables@[t].steps@);
                    }
                }
            }
            i = i + 1;
        }
        proof {
            assert(self.table_mapping.to_move@.subrange(0, n as int)
                =~= self.table_mapping.to_move@);
        }
        let mut instr_id: usize = 0;
        while instr_id < N_INSTRUMENTS
            invariant
                remapper_wf(*self),
                crate::songs::song_wf(*song),
                song.eqs@.len() == old(song).eqs@.len(),
                song_rest_unchanged(*song, *old(song)),
                song.eqs@ == eq_spec,
                table_views(song.tables@) == slots_renumbered(
                    copied_tviews,
                    self.table_mapping.to_move@,
                    self.table_mapping.mapping@,
                    cleared_table_steps(),
                ),
                song.phrases@ == old(song).phrases@,
                song.chains@ == old(song).chains@,
                instr_id <= 128,
                forall|t: int|
                    0 <= t < instr_id ==> crate::instruments::inst_equiv(
                        #[trigger] song.instruments@[t],
                        inst_applied(moved_instrs[t], self.eq_mapping.mapping@),
                    ),
                forall|t: int|
                    instr_id <= t < 128 ==> crate::instruments::inst_equiv(
                        #[trigger] song.instruments@[t],
                        moved_instrs[t],
                    ),
            decreases 128 - instr_id,
        {
            let ghost prev_instr = song.instruments@;
            let mut instr = crate::instruments::clone_instrument(&song.instruments[instr_id]);
            proof {
                if song.version.spec_at_least(4, 0) {
                    crate::instruments::lemma_inst_equiv_wf(
                        instr,
                        song.instruments@[instr_id as int],
                        song.version,
                    );
                }
                crate::instruments::lemma_inst_equiv_equ(
                    instr,
                    song.instruments@[instr_id as int],
                );
                crate::instruments::lemma_inst_equiv_trans(
                    instr,
                    song.instruments@[instr_id as int],
                    moved_instrs[instr_id as int],
                );
                crate::instruments::lemma_inst_equiv_equ(
                    instr,
                    moved_instrs[instr_id as int],
                );
            }
            match instr.equ() {
                Some(eq8) => {
                    let eq = eq8 as usize;
                    if eq < N_INSTRUMENT_EQS {
                        proof {
                            if song.version.spec_at_least(4, 0) {
                                crate::instruments::lemma_set_eq_wf(
                                    instr,
                                    self.eq_mapping.mapping@[eq as int],
                                    song.version,
                                );
                            }
                            crate::instruments::lemma_set_eq_equiv(
                                instr,
                                moved_instrs[instr_id as int],
                                self.eq_mapping.mapping@[eq as int],
                            );
                        }
                        instr.set_eq(self.eq_mapping.mapping[eq]);
                        song.instruments[instr_id] = instr;
                    }
                },
                None => {},
            }
            proof {
                assert(crate::instruments::inst_equiv(
                    song.instruments@[instr_id as int],
                    inst_applied(moved_instrs[instr_id as int], self.eq_mapping.mapping@),
                ));
                assert forall|t: int| instr_id + 1 <= t < 128 implies crate::instruments::inst_equiv(
                    #[trigger] song.instruments@[t],
                    moved_instrs[t],
                ) by {
                    assert(song.instruments@[t] == prev_instr[t]);
                }
            }
            instr_id = instr_id + 1;
        }
        let ghost moved_pviews = slots_renumbered(
            phrase_views(old(song).phrases@),
            self.phrase_mapping.to_move@,
            self.phrase_mapping.mapping@,
            cleared_phrase_steps(),
        );
        let n = self.phrase_mapping.to_move.len();
        let mut i: usize = 0;
        while i < n
            invariant
                remapper_wf(*self),
                crate::songs::song_wf(*song),
                song.eqs@.len() == old(song).eqs@.len(),
                song_rest_unchanged(*song, *old(song)),
                song.eqs@ == eq_spec,
                forall|t: int|
                    0 <= t < 128 ==> crate::instruments::inst_equiv(
                        #[trigger] song.instruments@[t],
                        inst_applied(moved_instrs[t], self.eq_mapping.mapping@),
                    ),
                table_views(song.tables@) == slots_renumbered(
                    copied_tviews,
                    self.table_mapping.to_move@,
                    self.table_mapping.mapping@,
                    cleared_table_steps(),
                ),
                song.chains@ == old(song).chains@,
                n == self.phrase_mapping.to_move@.len(),
                i <= n,
                phrase_views(song.phrases@) == slots_renumbered(
                    phrase_views(old(song).phrases@),
                    self.phrase_mapping.to_move@.subrange(0, i as int),
                    self.phrase_mapping.mapping@,
                    cleared_phrase_steps(),
                ),
            decreases n - i,
        {
            let ghost prev_pviews = phrase_views(song.phrases@);
            let phrase_id = self.phrase_mapping.to_move[i] as usize;
            let to_index = self.phrase_mapping.mapping[phrase_id] as usize;
            song.phrases[to_index] = crate::songs::clone_phrase(&song.phrases[phrase_id]);
            let mut cleared = crate::songs::clone_phrase(&song.phrases[phrase_id]);
            cleared.clear();
            song.phrases[phrase_id] = cleared;
            proof {
                let tmv = self.phrase_mapping.to_move@;
                let mp = self.phrase_mapping.mapping@;
                let cur = tmv.subrange(0, i + 1);
                assert(cur.drop_last() =~= tmv.subrange(0, i as int));
                assert(cur.last() == tmv[i as int]);
                assert(cleared.steps@ =~= cleared_phrase_steps());
                assert(phrase_views(song.phrases@) =~= prev_pviews.update(
                    to_index as int,
                    prev_pviews[phrase_id as int],
                ).update(phrase_id as int, cleared_phrase_steps())) by {
                    assert forall|t: int| 0 <= t < 255 implies phrase_views(song.phrases@)[t]
                        == prev_pviews.update(
                        to_index as int,
                        prev_pviews[phrase_id as int],
                    ).update(phrase_id as int, cleared_phrase_steps())[t] by {
                        assert(phrase_views(song.phrases@)[t] == song.phrases@[t].steps@);
                    }
                }
            }
            i = i + 1;
        }
        proof {
            assert(self.phrase_mapping.to_move@.subrange(0, n as int)
                =~= self.phrase_mapping.to_move@);
        }
        let mut phrase_id: usize = 0;
        while phrase_id < N_PHRASES
            invariant
                remapper_wf(*self),
                crate::songs::song_wf(*song),
                song.eqs@.len() == old(song).eqs@.len(),
                song_rest_unchanged(*song, *old(song)),
                song.eqs@ == eq_spec,
                forall|t: int|
                    0 <= t < 128 ==> crate::instruments::inst_equiv(
                        #[trigger] song.instruments@[t],
                        inst_applied(moved_instrs[t], self.eq_mapping.mapping@),
                    ),
                table_views(song.tables@) == slots_renumbered(
                    copied_tviews,
                    self.table_mapping.to_move@,
                    self.table_mapping.mapping@,
                    cleared_table_steps(),
                ),
                song.chains@ == old(song).chains@,
                phrase_id <= 255,
                forall|p: int|
                    0 <= p < phrase_id ==> (#[trigger] song.phrases@[p]).steps@
                        == crate::songs::phrase_mapped_steps(
                        moved_pviews[p],
                        self.instrument_mapping.mapping@,
                    ),
                forall|p: int|
                    phrase_id <= p < 255 ==> (#[trigger] song.phrases@[p]).steps@
                        == moved_pviews[p],
            decreases 255 - phrase_id,
        {
            let ghost prev = song.phrases@;
            let mapped = song.phrases[phrase_id].map_instruments(&self.instrument_mapping);
            song.phrases[phrase_id] = mapped;
            proof {
                assert forall|p: int| phrase_id + 1 <= p < 255 implies (
                #[trigger] song.phrases@[p]).steps@ == moved_pviews[p] by {
                    assert(song.phrases@[p] == prev[p]);
                }
            }
            phrase_id = phrase_id + 1;
        }
        let ghost moved_cviews = slots_renumbered(
            chain_views(old(song).chains@),
            self.chain_mapping.to_move@,
            self.chain_mapping.mapping@,
            cleared_chain_steps(),
        );
        let n = self.chain_mapping.to_move.len();
        let mut i: usize = 0;
        while i < n
            invariant
                remapper_wf(*self),
                crate::songs::song_wf(*song),
                song.eqs@.len() == old(song).eqs@.len(),
                song_rest_unchanged(*song, *old(song)),
                song.eqs@ == eq_spec,
                forall|t: int|
                    0 <= t < 128 ==> crate::instruments::inst_equiv(
                        #[trigger] song.instruments@[t],
                        inst_applied(moved_instrs[t], self.eq_mapping.mapping@),
                    ),
                table_views(song.tables@) == slots_renumbered(
                    copied_tviews,
                    self.table_mapping.to_move@,
                    self.table_mapping.mapping@,
                    cleared_table_steps(),
                ),
                forall|p: int|
                    0 <= p < 255 ==> (#[trigger] song.phrases@[p]).steps@
                        == crate::songs::phrase_mapped_steps(
                        moved_pviews[p],
                        self.instrument_mapping.mapping@,
                    ),
                n == self.chain_mapping.to_move@.len(),
                i <= n,
                chain_views(song.chains@) == slots_renumbered(
                    chain_views(old(song).chains@),
                    self.chain_mapping.to_move@.subrange(0, i as int),
                    self.chain_mapping.mapping@,
                    cleared_chain_steps(),
                ),
            decreases n - i,
        {
            let ghost prev_cviews = chain_views(song.chains@);
            let chain_id = self.chain_mapping.to_move[i] as usize;
            let to_index = self.chain_mapping.mapping[chain_id] as usize;
            song.chains[to_index] = crate::songs::clone_chain(&song.chains[chain_id]);
            let mut cleared = crate::songs::clone_chain(&song.chains[chain_id]);
            cleared.clear();
            song.chains[chain_id] = cleared;
            proof {
                let tmv = self.chain_mapping.to_move@;
                let mp = self.chain_mapping.mapping@;
                let cur = tmv.subrange(0, i + 1);
                assert(cur.drop_last() =~= tmv.subrange(0, i as int));
                assert(cur.last() == tmv[i as int]);
                assert(cleared.steps@ =~= cleared_chain_steps());
                assert(chain_views(song.chains@) =~= prev_cviews.update(
                    to_index as int,
                    prev_cviews[chain_id as int],
                ).update(chain_id as int, cleared_chain_steps())) by {
                    assert forall|t: int| 0 <= t < 255 implies chain_views(song.chains@)[t]
                        == prev_cviews.update(
                        to_index as int,
                        prev_cviews[chain_id as int],
                    ).update(chain_id as int, cleared_chain_steps())[t] by {
                        assert(chain_views(song.chains@)[t] == song.chains@[t].steps@);
                    }
                }
            }
            i = i + 1;
        }
        proof {
            assert(self.chain_mapping.to_move@.subrange(0, n as int)
                =~= self.chain_mapping.to_move@);
        }
        let mut chain_id: usize = 0;
        while chain_id < N_CHAINS
            invariant
                remapper_wf(*self),
                crate::songs::song_wf(*song),
                song.eqs@.len() == old(song).eqs@.len(),
                song_rest_unchanged(*song, *old(song)),
                song.eqs@ == eq_spec,
                forall|t: int|
                    0 <= t < 128 ==> crate::instruments::inst_equiv(
                        #[trigger] song.instruments@[t],
                        inst_applied(moved_instrs[t], self.eq_mapping.mapping@),
                    ),
                table_views(song.tables@) == slots_renumbered(
                    copied_tviews,
                    self.table_mapping.to_move@,
                    self.table_mapping.mapping@,
                    cleared_table_steps(),
                ),
                forall|p: int|
                    0 <= p < 255 ==> (#[trigger] song.phrases@[p]).steps@
                        == crate::songs::phrase_mapped_steps(
                        moved_pviews[p],
                        self.instrument_mapping.mapping@,
                    ),
                chain_id <= 255,
                forall|c: int|
                    0 <= c < chain_id ==> (#[trigger] song.chains@[c]).steps@
                        == crate::songs::chain_mapped_steps(
                        moved_cviews[c],
                        self.phrase_mapping.mapping@,
                    ),
                forall|c: int|
                    chain_id <= c < 255 ==> (#[trigger] song.chains@[c]).steps@
                        == moved_cviews[c],
            decreases 255 - chain_id,
        {
            let ghost prev = song.chains@;
            let mapped = song.chains[chain_id].map(&self.phrase_mapping);
            song.chains[chain_id] = mapped;
            proof {
                assert forall|c: int| chain_id + 1 <= c < 255 implies (
                #[trigger] song.chains@[c]).steps@ == moved_cviews[c] by {
                    assert(song.chains@[c] == prev[c]);
                }
            }
            chain_id = chain_id + 1;
        }
        proof {
            assert forall|t: int| 0 <= t < 256 implies table_views(song.tables@)[t] == (
            #[trigger] song.tables@[t]).steps@ by {}
        }
    }
}

} // verus!

//! Write cursor over a pre-sized byte buffer.
//!
//! The writer never grows the buffer: serialization reuses the exact buffer a
//! prior read produced, under the invariant that writes never lengthen the
//! file.  Every write method requires the touched range to lie inside the
//! buffer.

use vstd::prelude::*;

verus! {

/// `b2` has the same length as `b1` and agrees with it everywhere outside
/// `[lo, hi)`.
pub open spec fn preserved_outside(b1: Seq<u8>, b2: Seq<u8>, lo: int, hi: int) -> bool {
    &&& b2.len() == b1.len()
    &&& forall|i: int| 0 <= i < b1.len() && !(lo <= i < hi) ==> #[trigger] b2[i] == b1[i]
}

/// Write cursor over an in-memory byte buffer of fixed size.
pub struct Writer {
    buffer: Vec<u8>,
    pos: usize,
}

/// The write position is never negative.
pub broadcast proof fn lemma_writer_pos_nonneg(w: Writer)
    ensures
        0 <= #[trigger] w.spec_pos(),
{
}

/// The buffer is a `Vec`, so its length fits a `usize`.
pub broadcast proof fn lemma_writer_data_bound(w: Writer)
    ensures
        #[trigger] w.data().len() <= usize::MAX,
{
    assert(w.buffer.len() == w.buffer@.len());
}

impl Writer {
    /// The underlying bytes.
    pub closed spec fn data(&self) -> Seq<u8> {
        self.buffer@
    }

    /// The current write position.
    pub closed spec fn spec_pos(&self) -> int {
        self.pos as int
    }

    /// Initialize the writer from a loaded song buffer.
    pub fn new(v: Vec<u8>) -> (r: Writer)
        ensures
            r.data() == v@,
            r.spec_pos() == 0,
    {
        Writer { buffer: v, pos: 0 }
    }

    /// Terminate writing and hand the buffer back.
    pub fn finish(self) -> (r: Vec<u8>)
        ensures
            r@ == self.data(),
    {
        self.buffer
    }

    pub fn len(&self) -> (r: usize)
        ensures
            r == self.data().len(),
    {
        self.buffer.len()
    }

    /// Write one byte and advance by one.
    pub fn write(&mut self, v: u8)
        requires
            old(self).spec_pos() < old(self).data().len(),
        ensures
            final(self).data() == old(self).data().update(old(self).spec_pos(), v),
            final(self).spec_pos() == old(self).spec_pos() + 1,
    {
        let p = self.pos;
        assert(p < self.buffer.len());
        self.buffer[p] = v;
        self.pos = p + 1;
    }

    /// Write a run of bytes and advance past them.
    pub fn write_bytes(&mut self, bytes: &Vec<u8>)
        requires
            old(self).spec_pos() + bytes@.len() <= old(self).data().len(),
        ensures
            final(self).data().len() == old(self).data().len(),
            final(self).spec_pos() == old(self).spec_pos() + bytes@.len(),
            forall|k: int|
                old(self).spec_pos() <= k < old(self).spec_pos() + bytes@.len()
                    ==> #[trigger] final(self).data()[k] == bytes@[k - old(self).spec_pos()],
            preserved_outside(
                old(self).data(),
                final(self).data(),
                old(self).spec_pos(),
                old(self).spec_pos() + bytes@.len(),
            ),
    {
        assert(self.buffer.len() == self.data().len());
        let ghost start = self.pos as int;
        let ghost orig = self.data();
        let start_x = self.pos;
        let n = bytes.len();
        let mut i: usize = 0;
        while i < n
            invariant
                n == bytes@.len(),
                start == start_x,
                start + n <= orig.len(),
                orig.len() <= usize::MAX,
                i <= n,
                self.pos == start_x,
                self.buffer@.len() == orig.len(),
                forall|k: int|
                    start <= k < start + i ==> #[trigger] self.buffer@[k] == bytes@[k - start],
                preserved_outside(orig, self.buffer@, start, start + i),
            decreases n - i,
        {
            self.buffer[start_x + i] = bytes[i];
            i = i + 1;
        }
        self.pos = start_x + n;
    }

    /// Write a string field: the bytes of `s`, zero-filled up to `width`.
    pub fn write_string(&mut self, s: &Vec<u8>, width: usize)
        requires
            s@.len() <= width,
            old(self).spec_pos() + width <= old(self).data().len(),
        ensures
            final(self).data().len() == old(self).data().len(),
            final(self).spec_pos() == old(self).spec_pos() + width,
            forall|k: int|
                old(self).spec_pos() <= k < old(self).spec_pos() + s@.len()
                    ==> #[trigger] final(self).data()[k] == s@[k - old(self).spec_pos()],
            forall|k: int|
                old(self).spec_pos() + s@.len() <= k < old(self).spec_pos() + width
                    ==> #[trigger] final(self).data()[k] == 0u8,
            preserved_outside(
                old(self).data(),
                final(self).data(),
                old(self).spec_pos(),
                old(self).spec_pos() + width,
            ),
    {
        self.write_bytes(s);
        self.fill_till(0, width - s.len());
    }

    /// Advance without writing.
    pub fn skip(&mut self, skip: usize)
        requires
            old(self).spec_pos() + skip <= usize::MAX,
        ensures
            final(self).data() == old(self).data(),
            final(self).spec_pos() == old(self).spec_pos() + skip,
    {
        self.pos = self.pos + skip;
    }

    /// Seek to an absolute position.
    pub fn seek(&mut self, new_pos: usize)
        ensures
            final(self).data() == old(self).data(),
            final(self).spec_pos() == new_pos,
    {
        self.pos = new_pos;
    }

    pub fn pos(&self) -> (r: usize)
        ensures
            r == self.spec_pos(),
    {
        self.pos
    }

    /// Write `until` copies of `v`.
    pub fn fill_till(&mut self, v: u8, until: usize)
        requires
            old(self).spec_pos() + until <= old(self).data().len(),
        ensures
            final(self).data().len() == old(self).data().len(),
            final(self).spec_pos() == old(self).spec_pos() + until,
            forall|k: int|
                old(self).spec_pos() <= k < old(self).spec_pos() + until
                    ==> #[trigger] final(self).data()[k] == v,
            preserved_outside(
                old(self).data(),
                final(self).data(),
                old(self).spec_pos(),
                old(self).spec_pos() + until,
            ),
    {
        assert(self.buffer.len() == self.data().len());
        let ghost start = self.pos as int;
        let ghost orig = self.data();
        let start_x = self.pos;
        let mut i: usize = 0;
        while i < until
            invariant
                start == start_x,
                start + until <= orig.len(),
                orig.len() <= usize::MAX,
                i <= until,
                self.pos == start_x,
                self.buffer@.len() == orig.len(),
                forall|k: int| start <= k < start + i ==> #[trigger] self.buffer@[k] == v,
                preserved_outside(orig, self.buffer@, start, start + i),
            decreases until - i,
        {
            self.buffer[start_x + i] = v;
            i = i + 1;
        }
        self.pos = start_x + until;
    }
}

} // verus!

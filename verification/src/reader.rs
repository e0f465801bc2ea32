//! Sequential read cursor over an in-memory byte buffer, plus the error type
//! shared by every parser in the crate.

use vstd::prelude::*;

verus! {

/// Parse or validation failure carrying a human-readable message.
#[derive(PartialEq, Eq, Debug)]
pub struct ParseError(pub String);

/// Result type used by every parser of the crate.
pub type M8Result<T> = core::result::Result<T, ParseError>;

/// Length of the prefix of the `n` bytes at `p` that precedes the first
/// string terminator (a `0x00` or `0xFF` byte); `n` if no byte terminates.
pub open spec fn str_end(b: Seq<u8>, p: int, n: int) -> int
    decreases n,
{
    if n <= 0 {
        0
    } else if b[p] == 0u8 || b[p] == 0xFFu8 {
        0
    } else {
        1 + str_end(b, p + 1, n - 1)
    }
}

/// The bytes a fixed-width string field at `p` of width `n` holds: the prefix
/// before the first terminator.
pub open spec fn string_at(b: Seq<u8>, p: int, n: int) -> Seq<u8> {
    b.subrange(p, p + str_end(b, p, n))
}

/// `str_end` stays within `0 ..= n` and marks a terminator-free prefix.
pub proof fn lemma_str_end_bounds(b: Seq<u8>, p: int, n: int)
    requires
        0 <= n,
    ensures
        0 <= str_end(b, p, n) <= n,
        forall|j: int| p <= j < p + str_end(b, p, n) ==> b[j] != 0u8 && b[j] != 0xFFu8,
        str_end(b, p, n) < n ==> b[p + str_end(b, p, n)] == 0u8 || b[p + str_end(b, p, n)]
            == 0xFFu8,
    decreases n,
{
    if n > 0 && b[p] != 0u8 && b[p] != 0xFFu8 {
        lemma_str_end_bounds(b, p + 1, n - 1);
    }
}

/// `str_end` depends only on the `n` bytes at `p`.
pub proof fn lemma_str_end_frame(b1: Seq<u8>, b2: Seq<u8>, p1: int, p2: int, n: int)
    requires
        0 <= n,
        forall|j: int| 0 <= j < n ==> #[trigger] b1[p1 + j] == b2[p2 + j],
    ensures
        str_end(b1, p1, n) == str_end(b2, p2, n),
    decreases n,
{
    if n > 0 {
        assert(b1[p1] == b2[p2]) by {
            assert(b1[p1 + 0] == b2[p2 + 0]);
        }
        if b1[p1] != 0u8 && b1[p1] != 0xFFu8 {
            assert forall|j: int| 0 <= j < n - 1 implies #[trigger] b1[p1 + 1 + j] == b2[p2 + 1
                + j] by {
                let k = j + 1;
                assert(b1[p1 + k] == b2[p2 + k]);
            }
            lemma_str_end_frame(b1, b2, p1 + 1, p2 + 1, n - 1);
        }
    }
}

/// `string_at` depends only on the `n` bytes at `p`.
pub proof fn lemma_string_at_frame(b1: Seq<u8>, b2: Seq<u8>, p: int, n: int)
    requires
        0 <= n,
        0 <= p,
        p + n <= b1.len(),
        b2.len() == b1.len(),
        forall|k: int| p <= k < p + n ==> #[trigger] b2[k] == b1[k],
    ensures
        string_at(b2, p, n) == string_at(b1, p, n),
{
    assert forall|j: int| 0 <= j < n implies #[trigger] b1[p + j] == b2[p + j] by {
        assert(b2[p + j] == b1[p + j]);
    }
    lemma_str_end_frame(b1, b2, p, p, n);
    lemma_str_end_bounds(b1, p, n);
    assert(string_at(b2, p, n) =~= string_at(b1, p, n)) by {
        assert forall|i: int| 0 <= i < str_end(b1, p, n) implies #[trigger] b2[p + i] == b1[p
            + i] by {
            assert(b2[p + i] == b1[p + i]);
        }
    }
}

/// Reading a field that was just written with `s` followed by zero padding
/// yields `s` again, provided `s` is terminator-free and fits the width.
pub proof fn lemma_string_at_canonical(b: Seq<u8>, p: int, n: int, s: Seq<u8>)
    requires
        0 <= p,
        p + n <= b.len(),
        0 <= s.len() <= n,
        forall|j: int| 0 <= j < s.len() ==> #[trigger] b[p + j] == s[j],
        forall|j: int| 0 <= j < s.len() ==> s[j] != 0u8 && s[j] != 0xFFu8,
        s.len() < n ==> b[p + s.len()] == 0u8,
    ensures
        string_at(b, p, n) == s,
{
    assert forall|j: int| p <= j < p + s.len() implies b[j] != 0u8 && b[j] != 0xFFu8 by {
        let k = j - p;
        assert(b[p + k] == s[k]);
    }
    lemma_str_end_eq(b, p, n, s.len() as int);
    assert forall|i: int| 0 <= i < s.len() implies string_at(b, p, n)[i] == s[i] by {
        assert(b[p + i] == s[i]);
    }
    assert(string_at(b, p, n) =~= s);
}

/// Sequential read position over an in-memory byte buffer.
///
/// Every `read_*` method requires the bytes it consumes to lie inside the
/// buffer; callers validate the buffer length once, up front.
pub struct Reader {
    buffer: Vec<u8>,
    position: usize,
}

/// The read position is never negative.
pub broadcast proof fn lemma_reader_pos_nonneg(r: Reader)
    ensures
        0 <= #[trigger] r.spec_pos(),
{
}

/// The buffer is a `Vec`, so its length fits a `usize`.
pub broadcast proof fn lemma_reader_data_bound(r: Reader)
    ensures
        #[trigger] r.data().len() <= usize::MAX,
{
    assert(r.buffer.len() == r.buffer@.len());
}

impl Reader {
    /// The underlying bytes.
    pub closed spec fn data(&self) -> Seq<u8> {
        self.buffer@
    }

    /// The current read position.
    pub closed spec fn spec_pos(&self) -> int {
        self.position as int
    }

    pub fn new(buffer: Vec<u8>) -> (r: Self)
        ensures
            r.data() == buffer@,
            r.spec_pos() == 0,
    {
        Self { buffer, position: 0 }
    }

    pub fn len(&self) -> (r: usize)
        ensures
            r == self.data().len(),
    {
        self.buffer.len()
    }

    /// Read one byte and advance by one.
    pub fn read(&mut self) -> (b: u8)
        requires
            old(self).spec_pos() < old(self).data().len(),
        ensures
            final(self).data() == old(self).data(),
            final(self).spec_pos() == old(self).spec_pos() + 1,
            b == old(self).data()[old(self).spec_pos()],
    {
        let p = self.position;
        assert(p < self.buffer.len());
        let b = self.buffer[p];
        self.position = p + 1;
        b
    }

    /// Read `n` bytes and advance by `n`.
    pub fn read_bytes(&mut self, n: usize) -> (bs: Vec<u8>)
        requires
            old(self).spec_pos() + n <= old(self).data().len(),
        ensures
            final(self).data() == old(self).data(),
            final(self).spec_pos() == old(self).spec_pos() + n,
            bs@ == old(self).data().subrange(
                old(self).spec_pos(),
                old(self).spec_pos() + n,
            ),
    {
        let mut bs: Vec<u8> = Vec::new();
        let start = self.position;
        assert(start + n <= self.buffer.len());
        let mut i: usize = 0;
        while i < n
            invariant
                start + n <= self.data().len(),
                self.data().len() <= usize::MAX,
                self.position == start,
                i <= n,
                bs@ == self.data().subrange(start as int, start + i),
            decreases n - i,
        {
            let b = self.buffer[start + i];
            bs.push(b);
            i = i + 1;
            proof {
                assert(bs@ =~= self.data().subrange(start as int, start + i));
            }
        }
        self.position = start + n;
        bs
    }

    /// Read one byte; the field is set exactly when the byte is `1`.
    pub fn read_bool(&mut self) -> (r: bool)
        requires
            old(self).spec_pos() < old(self).data().len(),
        ensures
            final(self).data() == old(self).data(),
            final(self).spec_pos() == old(self).spec_pos() + 1,
            r == (old(self).data()[old(self).spec_pos()] == 1u8),
    {
        self.read() == 1
    }

    /// Read a fixed-width string field of `n` bytes, returning the prefix
    /// before the first `0x00` or `0xFF` terminator; the cursor always
    /// advances by the full width.
    pub fn read_string(&mut self, n: usize) -> (s: Vec<u8>)
        requires
            old(self).spec_pos() + n <= old(self).data().len(),
        ensures
            final(self).data() == old(self).data(),
            final(self).spec_pos() == old(self).spec_pos() + n,
            s@ == string_at(old(self).data(), old(self).spec_pos(), n as int),
            s@.len() <= n,
            forall|j: int| 0 <= j < s@.len() ==> s@[j] != 0u8 && s@[j] != 0xFFu8,
    {
        let start = self.position;
        assert(start + n <= self.buffer.len());
        let ghost data = self.data();
        let mut end: usize = 0;
        let mut stopped = false;
        while end < n && !stopped
            invariant
                start + n <= data.len(),
                data.len() <= usize::MAX,
                self.data() == data,
                self.position == start,
                end <= n,
                forall|j: int|
                    start <= j < start + end ==> #[trigger] data[j] != 0u8 && data[j] != 0xFFu8,
                stopped ==> end < n && (data[start + end] == 0u8 || data[start + end] == 0xFFu8),
            decreases n - end, (if stopped { 0int } else { 1int }),
        {
            let b = self.buffer[start + end];
            if b == 0 || b == 255 {
                stopped = true;
            } else {
                end = end + 1;
            }
        }
        proof {
            lemma_str_end_eq(data, start as int, n as int, end as int);
        }
        let s = self.read_bytes(end);
        self.position = start + n;
        proof {
            lemma_str_end_bounds(data, start as int, n as int);
        }
        s
    }

    pub fn pos(&self) -> (r: usize)
        ensures
            r == self.spec_pos(),
    {
        self.position
    }

    /// Seek to an absolute position.
    pub fn set_pos(&mut self, n: usize)
        ensures
            final(self).data() == old(self).data(),
            final(self).spec_pos() == n,
    {
        self.position = n;
    }
}

/// If the first `e` bytes are terminator-free and byte `e` (if inside the
/// field) terminates, then `e` is exactly `str_end`.
proof fn lemma_str_end_eq(b: Seq<u8>, p: int, n: int, e: int)
    requires
        0 <= e <= n,
        forall|j: int| p <= j < p + e ==> b[j] != 0u8 && b[j] != 0xFFu8,
        e < n ==> b[p + e] == 0u8 || b[p + e] == 0xFFu8,
    ensures
        str_end(b, p, n) == e,
    decreases n,
{
    if e > 0 {
        assert(b[p] != 0u8 && b[p] != 0xFFu8);
        assert(forall|j: int| p + 1 <= j < p + 1 + (e - 1) ==> b[j] != 0u8 && b[j] != 0xFFu8);
        lemma_str_end_eq(b, p + 1, n - 1, e - 1);
    }
}

} // verus!

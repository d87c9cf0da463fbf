use vstd::prelude::*;
use core::ops::Range;

verus! {

/// A growable byte buffer.
#[derive(Debug)]
pub struct NSMutableData {
    bytes: Vec<u8>,
}

/// `n` zero bytes.
pub open spec fn zeros(n: nat) -> Seq<u8> {
    Seq::new(n, |i: int| 0u8)
}

/// The contents after the bytes of `range` are replaced by `new`. Where the
/// range starts past the end, the gap is filled with zeros; where it ends past
/// the end, everything from its start on is replaced.
pub open spec fn replaced(old: Seq<u8>, start: int, end: int, new: Seq<u8>) -> Seq<u8> {
    let head = if start <= old.len() {
        old.subrange(0, start)
    } else {
        old + zeros((start - old.len()) as nat)
    };
    let tail = if end <= old.len() {
        old.subrange(end, old.len() as int)
    } else {
        Seq::empty()
    };
    head + new + tail
}

/// The contents after their length is set to `len`: cut, or padded with
/// zeros.
pub open spec fn resized(old: Seq<u8>, len: nat) -> Seq<u8> {
    if len <= old.len() {
        old.subrange(0, len as int)
    } else {
        old + zeros((len - old.len()) as nat)
    }
}

impl View for NSMutableData {
    type V = Seq<u8>;

    closed spec fn view(&self) -> Seq<u8> {
        self.bytes@
    }
}

impl NSMutableData {
    /// An empty buffer.
    pub fn new() -> (r: NSMutableData)
        ensures
            r@ == Seq::<u8>::empty(),
    {
        NSMutableData { bytes: Vec::new() }
    }

    /// A buffer holding a copy of `bytes`.
    pub fn with_bytes(bytes: &[u8]) -> (r: NSMutableData)
        ensures
            r@ == bytes@,
    {
        NSMutableData { bytes: vstd::slice::slice_to_vec(bytes) }
    }

    /// A buffer holding `bytes`.
    pub fn from_vec(bytes: Vec<u8>) -> (r: NSMutableData)
        ensures
            r@ == bytes@,
    {
        NSMutableData { bytes }
    }

    /// An empty buffer with room for `capacity` bytes.
    pub fn with_capacity(capacity: usize) -> (r: NSMutableData)
        ensures
            r@ == Seq::<u8>::empty(),
    {
        NSMutableData { bytes: Vec::with_capacity(capacity) }
    }

    /// The number of bytes held.
    pub fn len(&self) -> (r: usize)
        ensures
            r == self@.len(),
    {
        self.bytes.len()
    }

    /// Whether no byte is held.
    pub fn is_empty(&self) -> (r: bool)
        ensures
            r == (self@.len() == 0),
    {
        self.bytes.len() == 0
    }

    /// The bytes held.
    pub fn bytes(&self) -> (r: &[u8])
        ensures
            r@ == self@,
    {
        self.bytes.as_slice()
    }

    /// The bytes held, for writing in place.
    pub fn bytes_mut(&mut self) -> (r: &mut [u8])
        ensures
            r@ == old(self)@,
            final(r)@ == final(self)@,
    {
        self.bytes.as_mut_slice()
    }

    /// Expands with zeroes, or truncates the buffer.
    pub fn set_len(&mut self, len: usize)
        ensures
            final(self)@ == resized(old(self)@, len as nat),
    {
        if len <= self.bytes.len() {
            self.bytes.truncate(len);
            assert(self.bytes@ =~= resized(old(self)@, len as nat));
        } else {
            let ghost before = self.bytes@;
            while self.bytes.len() < len
                invariant
                    before == old(self)@,
                    before.len() <= self.bytes.len() <= len,
                    self.bytes@ =~= before + zeros((self.bytes.len() - before.len()) as nat),
                decreases len - self.bytes.len(),
            {
                self.bytes.push(0);
            }
            assert(self.bytes@ =~= resized(old(self)@, len as nat));
        }
    }

    /// Appends `bytes`.
    pub fn extend_from_slice(&mut self, bytes: &[u8])
        ensures
            final(self)@ == old(self)@ + bytes@,
    {
        self.bytes.extend_from_slice(bytes);
    }

    /// Appends one byte.
    pub fn push(&mut self, byte: u8)
        ensures
            final(self)@ == old(self)@.push(byte),
    {
        self.bytes.push(byte);
    }

    /// Replaces the bytes in `range` by `bytes`, zero-filling where the range
    /// starts past the end.
    pub fn replace_range(&mut self, range: Range<usize>, bytes: &[u8])
        requires
            range.start <= range.end,
        ensures
            final(self)@ == replaced(old(self)@, range.start as int, range.end as int, bytes@),
    {
        let start = range.start;
        let end = range.end;
        let old_len = self.bytes.len();
        let mut out: Vec<u8> = Vec::new();
        let mut i: usize = 0;
        while i < start
            invariant
                i <= start,
                self.bytes@ == old(self)@,
                old_len == self.bytes.len(),
                out@.len() == i,
                forall|k: int| 0 <= k < i ==> out@[k] == if k < old_len { old(self)@[k] } else { 0u8 },
            decreases start - i,
        {
            if i < old_len {
                out.push(self.bytes[i]);
            } else {
                out.push(0);
            }
            i = i + 1;
        }
        let ghost head = out@;
        if start <= old_len {
            assert(head =~= old(self)@.subrange(0, start as int));
        } else {
            assert(head =~= old(self)@ + zeros((start - old_len) as nat));
        }
        out.extend_from_slice(bytes);
        let mut j: usize = end;
        if j >= old_len {
            self.bytes = out;
            assert(self.bytes@ =~= replaced(old(self)@, start as int, end as int, bytes@));
            return;
        }
        while j < old_len
            invariant
                end <= j <= old_len,
                self.bytes@ == old(self)@,
                old_len == self.bytes.len(),
                out@ =~= head + bytes@ + old(self)@.subrange(end as int, j as int),
            decreases old_len - j,
        {
            out.push(self.bytes[j]);
            j = j + 1;
        }
        self.bytes = out;
        assert(self.bytes@ =~= replaced(old(self)@, start as int, end as int, bytes@));
    }

    /// Replaces all the bytes held by `bytes`.
    pub fn set_bytes(&mut self, bytes: &[u8])
        ensures
            final(self)@ == bytes@,
    {
        let len = self.len();
        self.replace_range(0..len, bytes);
        assert(final(self)@ =~= bytes@);
    }
}

} // verus!

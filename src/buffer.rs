use vstd::prelude::*;

verus! {

/// A byte source that hands out its bytes in order and releases them as it goes.
/// The bytes are kept in reverse, so each read pops from the end.
pub struct LowMemoryReadableVec {
    rev: Vec<u8>,
}

impl View for LowMemoryReadableVec {
    type V = Seq<u8>;

    /// The bytes not yet read, in reading order.
    closed spec fn view(&self) -> Seq<u8> {
        Seq::new(self.rev@.len(), |i: int| self.rev@[self.rev@.len() - 1 - i])
    }
}

impl LowMemoryReadableVec {
    pub fn from_vec(input: Vec<u8>) -> (r: LowMemoryReadableVec)
        ensures
            r@ == input@,
    {
        let len = input.len();
        let mut rev: Vec<u8> = Vec::new();
        let mut i: usize = len;
        while i > 0
            invariant
                i <= len == input@.len(),
                rev@.len() == len - i,
                forall|k: int| 0 <= k < len - i ==> rev@[k] == input@[len - 1 - k],
            decreases i,
        {
            i = i - 1;
            rev.push(input[i]);
        }
        let r = LowMemoryReadableVec { rev };
        assert(r@ =~= input@);
        r
    }

    /// The number of bytes not yet read.
    pub fn remaining(&self) -> (r: usize)
        ensures
            r == self@.len(),
    {
        self.rev.len()
    }

    /// Moves the next bytes into the front of `buf`, as many as fit and remain,
    /// and returns how many it moved.
    pub fn read(&mut self, buf: &mut Vec<u8>) -> (r: usize)
        ensures
            r as int == if old(self)@.len() < old(buf)@.len() {
                old(self)@.len() as int
            } else {
                old(buf)@.len() as int
            },
            final(self)@ == old(self)@.subrange(r as int, old(self)@.len() as int),
            final(buf)@ == old(self)@.subrange(0, r as int) + old(buf)@.subrange(
                r as int,
                old(buf)@.len() as int,
            ),
    {
        let n: usize = if self.rev.len() < buf.len() {
            self.rev.len()
        } else {
            buf.len()
        };
        let ghost len = old(self).rev@.len();
        let mut i: usize = 0;
        while i < n
            invariant
                n <= len,
                n <= old(buf)@.len(),
                len == old(self).rev@.len(),
                i <= n,
                self.rev@ == old(self).rev@.subrange(0, len - i),
                buf@.len() == old(buf)@.len(),
                forall|k: int| 0 <= k < i ==> buf@[k] == old(self).rev@[len - 1 - k],
                forall|k: int| i <= k < buf@.len() ==> buf@[k] == old(buf)@[k],
            decreases n - i,
        {
            let b = self.rev.pop().unwrap();
            buf.set(i, b);
            i = i + 1;
        }
        assert(self@ =~= old(self)@.subrange(n as int, len as int));
        assert(buf@ =~= old(self)@.subrange(0, n as int) + old(buf)@.subrange(
            n as int,
            old(buf)@.len() as int,
        ));
        n
    }
}

/// A growable byte sink owned by its single writer.
pub struct WritableRcRefCellVec {
    buf: Vec<u8>,
}

impl View for WritableRcRefCellVec {
    type V = Seq<u8>;

    /// The bytes written so far.
    closed spec fn view(&self) -> Seq<u8> {
        self.buf@
    }
}

impl WritableRcRefCellVec {
    pub fn new() -> (r: WritableRcRefCellVec)
        ensures
            r@ == Seq::<u8>::empty(),
    {
        WritableRcRefCellVec { buf: Vec::new() }
    }

    /// Appends all of `data`; returns its length.
    pub fn write(&mut self, data: &Vec<u8>) -> (r: usize)
        ensures
            r == data@.len(),
            final(self)@ == old(self)@ + data@,
    {
        let mut i: usize = 0;
        while i < data.len()
            invariant
                i <= data@.len(),
                self@ == old(self)@ + data@.subrange(0, i as int),
            decreases data@.len() - i,
        {
            self.buf.push(data[i]);
            assert(data@.subrange(0, i + 1) =~= data@.subrange(0, i as int).push(data@[i as int]));
            i = i + 1;
        }
        assert(data@.subrange(0, data@.len() as int) =~= data@);
        data.len()
    }

    /// Nothing is buffered: the bytes stay as they are.
    pub fn flush(&mut self)
        ensures
            final(self)@ == old(self)@,
    {
    }

    /// The bytes written.
    pub fn into_inner(self) -> (r: Vec<u8>)
        ensures
            r@ == self@,
    {
        self.buf
    }
}

} // verus!

//! A downloaded object, read sequentially.
use vstd::prelude::*;

verus! {

/// The bytes of a downloaded object and a read cursor over them.
pub struct Object {
    data: Vec<u8>,
    index: usize,
}

impl Object {
    /// All the bytes of the object.
    pub closed spec fn data_spec(&self) -> Seq<u8> {
        self.data@
    }

    /// How many bytes have been read.
    pub closed spec fn position(&self) -> nat {
        self.index as nat
    }

    /// The cursor lies within the data.
    pub closed spec fn wf(&self) -> bool {
        self.index <= self.data@.len()
    }

    /// The bytes not yet read.
    pub open spec fn remaining(&self) -> Seq<u8> {
        self.data_spec().subrange(self.position() as int, self.data_spec().len() as int)
    }

    /// An object over the given bytes, with nothing read yet.
    pub fn new(data: Vec<u8>) -> (r: Object)
        ensures
            r.wf(),
            r.position() <= r.data_spec().len(),
            r.data_spec() == data@,
            r.position() == 0,
    {
        Object { data, index: 0 }
    }

    /// Copies the next bytes into `buffer`, as many as fit and remain, and
    /// returns their count. A return of 0 with a non-empty buffer means that
    /// every byte has been read.
    pub fn read(&mut self, buffer: &mut [u8]) -> (n: usize)
        requires
            old(self).wf(),
        ensures
            final(self).wf(),
            old(self).position() <= old(self).data_spec().len(),
            final(self).position() <= final(self).data_spec().len(),
            old(buffer)@.len() > 0 ==> (n == 0 <==> old(self).position() == old(
                self,
            ).data_spec().len()),
            final(self).data_spec() == old(self).data_spec(),
            n as int == if old(buffer)@.len() < old(self).remaining().len() {
                old(buffer)@.len() as int
            } else {
                old(self).remaining().len() as int
            },
            final(self).position() == old(self).position() + n,
            final(self).remaining() == old(self).remaining().skip(n as int),
            final(buffer)@.len() == old(buffer)@.len(),
            final(buffer)@.take(n as int) == old(self).remaining().take(n as int),
            final(buffer)@.skip(n as int) == old(buffer)@.skip(n as int),
    {
        let len = buffer.len();
        let total = self.data.len();
        let avail = self.data.len() - self.index;
        let n = if len < avail {
            len
        } else {
            avail
        };
        let mut i: usize = 0;
        while i < n
            invariant
                n <= len,
                n <= avail,
                total == self.data@.len(),
                avail == self.data@.len() - self.index,
                self.index <= self.data@.len(),
                len == old(buffer)@.len(),
                i <= n,
                buffer@.len() == len,
                forall|j: int| 0 <= j < i ==> buffer@[j] == self.data@[self.index + j],
                forall|j: int| i <= j < len ==> buffer@[j] == old(buffer)@[j],
            decreases n - i,
        {
            buffer[i] = self.data[self.index + i];
            i = i + 1;
        }
        assert(buffer@.take(n as int) =~= old(self).remaining().take(n as int));
        assert(buffer@.skip(n as int) =~= old(buffer)@.skip(n as int));
        self.index = self.index + n;
        assert(self.remaining() =~= old(self).remaining().skip(n as int));
        n
    }
}

} // verus!

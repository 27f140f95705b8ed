//! Little-endian cursors over byte buffers: a bounds-checked reader used by the
//! IT loader and a growing writer used to assemble files such as WAV output.

use vstd::prelude::*;

verus! {

/// The value of the two little-endian bytes at `i`.
pub open spec fn u16_le(b: Seq<u8>, i: int) -> int {
    b[i] + 0x100 * b[i + 1]
}

/// The value of the four little-endian bytes at `i`.
pub open spec fn u32_le(b: Seq<u8>, i: int) -> int {
    b[i] + 0x100 * b[i + 1] + 0x10000 * b[i + 2] + 0x1000000 * b[i + 3]
}

/// A cursor over an immutable byte buffer. Every read is bounds-checked and
/// reports `None` past the end instead of failing.
pub struct BinaryReader<'a> {
    pub data: &'a [u8],
    pub position: usize,
}

impl<'a> BinaryReader<'a> {
    /// A cursor at the start of `data`.
    pub fn new(data: &'a [u8]) -> (r: Self)
        ensures
            r.data@ == data@,
            r.position == 0,
    {
        BinaryReader { data, position: 0 }
    }

    /// Read one byte and advance.
    pub fn read_u8(&mut self) -> (r: Option<u8>)
        ensures
            old(self).position + 1 <= old(self).data@.len() ==> {
                &&& r == Some(old(self).data@[old(self).position as int])
                &&& final(self).position == old(self).position + 1
            },
            old(self).position + 1 > old(self).data@.len() ==> r is None && *final(self) == *old(self),
            final(self).data@ == old(self).data@,
    {
        if self.position < self.data.len() {
            let b = self.data[self.position];
            self.position = self.position + 1;
            Some(b)
        } else {
            None
        }
    }

    /// Read a little-endian 16-bit value and advance.
    pub fn read_u16(&mut self) -> (r: Option<u16>)
        ensures
            old(self).position + 2 <= old(self).data@.len() ==> {
                &&& r == Some((u16_le(old(self).data@, old(self).position as int)) as u16)
                &&& final(self).position == old(self).position + 2
            },
            old(self).position + 2 > old(self).data@.len() ==> r is None && *final(self) == *old(self),
            final(self).data@ == old(self).data@,
    {
        if self.data.len() >= 2 && self.position <= self.data.len() - 2 {
            let b0 = self.data[self.position];
            let b1 = self.data[self.position + 1];
            self.position = self.position + 2;
            Some(b0 as u16 + 0x100 * (b1 as u16))
        } else {
            None
        }
    }

    /// Read a little-endian 32-bit value and advance.
    pub fn read_u32(&mut self) -> (r: Option<u32>)
        ensures
            old(self).position + 4 <= old(self).data@.len() ==> {
                &&& r == Some((u32_le(old(self).data@, old(self).position as int)) as u32)
                &&& final(self).position == old(self).position + 4
            },
            old(self).position + 4 > old(self).data@.len() ==> r is None && *final(self) == *old(self),
            final(self).data@ == old(self).data@,
    {
        if self.data.len() >= 4 && self.position <= self.data.len() - 4 {
            let b0 = self.data[self.position] as u32;
            let b1 = self.data[self.position + 1] as u32;
            let b2 = self.data[self.position + 2] as u32;
            let b3 = self.data[self.position + 3] as u32;
            self.position = self.position + 4;
            Some(b0 + 0x100 * b1 + 0x10000 * b2 + 0x1000000 * b3)
        } else {
            None
        }
    }

    /// Read a little-endian 32-bit value as a signed integer and advance.
    pub fn read_i32(&mut self) -> (r: Option<i32>)
        ensures
            old(self).position + 4 <= old(self).data@.len() ==> {
                &&& r == Some((u32_le(old(self).data@, old(self).position as int)) as u32 as i32)
                &&& final(self).position == old(self).position + 4
            },
            old(self).position + 4 > old(self).data@.len() ==> r is None && *final(self) == *old(self),
            final(self).data@ == old(self).data@,
    {
        match self.read_u32() {
            Some(v) => Some(v as i32),
            None => None,
        }
    }

    /// Copy the next `count` bytes and advance.
    pub fn read_bytes(&mut self, count: usize) -> (r: Option<Vec<u8>>)
        ensures
            old(self).position + count <= old(self).data@.len() ==> {
                &&& r is Some
                &&& r->Some_0@ == old(self).data@.subrange(
                    old(self).position as int,
                    old(self).position + count,
                )
                &&& final(self).position == old(self).position + count
            },
            old(self).position + count > old(self).data@.len() ==> r is None && *final(self) == *old(self),
            final(self).data@ == old(self).data@,
    {
        if count <= self.data.len() && self.position <= self.data.len() - count {
            let mut out: Vec<u8> = Vec::with_capacity(count);
            let start = self.position;
            let n = self.data.len();
            let mut i: usize = 0;
            while i < count
                invariant
                    start + count <= n,
                    n == self.data@.len(),
                    i <= count,
                    out@ == self.data@.subrange(start as int, start + i),
                decreases count - i,
            {
                out.push(self.data[start + i]);
                proof {
                    assert(out@ =~= self.data@.subrange(start as int, start + i + 1));
                }
                i = i + 1;
            }
            self.position = start + count;
            Some(out)
        } else {
            None
        }
    }

    /// Advance past `count` bytes without copying them.
    pub fn skip(&mut self, count: usize) -> (r: bool)
        ensures
            old(self).position + count <= old(self).data@.len() ==> {
                &&& r
                &&& final(self).position == old(self).position + count
            },
            old(self).position + count > old(self).data@.len() ==> !r && *final(self) == *old(self),
            final(self).data@ == old(self).data@,
    {
        if count <= self.data.len() && self.position <= self.data.len() - count {
            self.position = self.position + count;
            true
        } else {
            false
        }
    }
}

/// What a byte buffer looks like after writing `bytes` at `at`: the buffer is
/// first zero-padded so that the written range fits, then overwritten there.
pub open spec fn spec_write(s: Seq<u8>, at: int, bytes: Seq<u8>) -> Seq<u8> {
    let padded = if at + bytes.len() >= s.len() {
        s + Seq::new((at + bytes.len() - s.len()) as nat, |i: int| 0u8)
    } else {
        s
    };
    Seq::new(padded.len(), |i: int| if at <= i < at + bytes.len() { bytes[i - at] } else { padded[i] })
}

/// The four little-endian bytes of a 32-bit value.
pub open spec fn le_bytes_u32(value: u32) -> Seq<u8> {
    seq![
        (value & 0xFF) as u8,
        ((value >> 8) & 0xFF) as u8,
        ((value >> 16) & 0xFF) as u8,
        (value >> 24) as u8,
    ]
}

/// The two little-endian bytes of a 16-bit value.
pub open spec fn le_bytes_u16(value: u16) -> Seq<u8> {
    seq![(value & 0xFF) as u8, ((value >> 8) & 0xFF) as u8]
}

/// A growing little-endian byte writer with an explicit cursor. Writing past
/// the current end zero-fills the gap first.
pub struct BinaryWriter {
    pub data: Vec<u8>,
    pub position: usize,
}

impl BinaryWriter {
    /// The cursor never points past the end of the buffer.
    pub open spec fn wf(&self) -> bool {
        self.position <= self.data@.len()
    }

    /// An empty writer with the cursor at the start.
    pub fn new() -> (r: Self)
        ensures
            r.wf(),
            r.data@ == Seq::<u8>::empty(),
            r.position == 0,
    {
        BinaryWriter { data: Vec::new(), position: 0 }
    }

    /// Write a 32-bit value in little-endian order at the cursor.
    pub fn write_u32(&mut self, value: u32)
        requires
            old(self).wf(),
            old(self).position + 4 <= usize::MAX,
        ensures
            final(self).wf(),
            final(self).data@ == spec_write(old(self).data@, old(self).position as int, le_bytes_u32(value)),
            final(self).position == old(self).position + 4,
    {
        self.ensure_size(self.position + 4);
        let b0 = (value & 0xFF) as u8;
        let b1 = ((value >> 8) & 0xFF) as u8;
        let b2 = ((value >> 16) & 0xFF) as u8;
        let b3 = (value >> 24) as u8;
        vec_write(&mut self.data, self.position, b0);
        vec_write(&mut self.data, self.position + 1, b1);
        vec_write(&mut self.data, self.position + 2, b2);
        vec_write(&mut self.data, self.position + 3, b3);
        proof {
            assert(self.data@ =~= spec_write(old(self).data@, old(self).position as int, le_bytes_u32(value)));
        }
        self.position = self.position + 4;
    }

    /// Write a 16-bit value in little-endian order at the cursor.
    pub fn write_u16(&mut self, value: u16)
        requires
            old(self).wf(),
            old(self).position + 2 <= usize::MAX,
        ensures
            final(self).wf(),
            final(self).data@ == spec_write(old(self).data@, old(self).position as int, le_bytes_u16(value)),
            final(self).position == old(self).position + 2,
    {
        self.ensure_size(self.position + 2);
        let b0 = (value & 0xFF) as u8;
        let b1 = ((value >> 8) & 0xFF) as u8;
        vec_write(&mut self.data, self.position, b0);
        vec_write(&mut self.data, self.position + 1, b1);
        proof {
            assert(self.data@ =~= spec_write(old(self).data@, old(self).position as int, le_bytes_u16(value)));
        }
        self.position = self.position + 2;
    }

    /// Copy a byte slice to the cursor.
    pub fn write_bytes(&mut self, bytes: &[u8])
        requires
            old(self).wf(),
            old(self).position + bytes@.len() <= usize::MAX,
        ensures
            final(self).wf(),
            final(self).data@ == spec_write(old(self).data@, old(self).position as int, bytes@),
            final(self).position == old(self).position + bytes@.len(),
    {
        self.ensure_size(self.position + bytes.len());
        let count = bytes.len();
        let mut i: usize = 0;
        while i < count
            invariant
                self.position == old(self).position + i,
                i <= count,
                count == bytes@.len(),
                old(self).position + count <= usize::MAX,
                self.position + (count - i) <= self.data@.len(),
                self.data@.len() == spec_write(old(self).data@, old(self).position as int, bytes@).len(),
                forall|j: int| 0 <= j < self.data@.len() && !(old(self).position + i <= j < old(self).position + count)
                    ==> self.data@[j] == spec_write(old(self).data@, old(self).position as int, bytes@)[j],
            decreases count - i,
        {
            vec_write(&mut self.data, self.position, bytes[i]);
            self.position = self.position + 1;
            i = i + 1;
        }
        proof {
            assert(self.data@ =~= spec_write(old(self).data@, old(self).position as int, bytes@));
        }
    }

    /// Borrow the bytes written so far.
    pub fn get_data(&self) -> (r: &[u8])
        ensures
            r@ == self.data@,
    {
        self.data.as_slice()
    }

    /// The cursor.
    pub fn position(&self) -> (r: usize)
        ensures
            r == self.position,
    {
        self.position
    }

    /// Move the cursor, zero-filling up to it if it lies past the end.
    pub fn set_position(&mut self, position: usize)
        requires
            old(self).wf(),
        ensures
            final(self).wf(),
            final(self).position == position,
            final(self).data@ == if position >= old(self).data@.len() {
                old(self).data@ + Seq::new((position - old(self).data@.len()) as nat, |i: int| 0u8)
            } else {
                old(self).data@
            },
    {
        self.ensure_size(position);
        self.position = position;
    }

    /// Zero-fill so that the buffer is at least `size` bytes long.
    fn ensure_size(&mut self, size: usize)
        ensures
            final(self).position == old(self).position,
            final(self).data@ == if size >= old(self).data@.len() {
                old(self).data@ + Seq::new((size - old(self).data@.len()) as nat, |i: int| 0u8)
            } else {
                old(self).data@
            },
            final(self).data@.len() >= size,
            final(self).data@.len() >= old(self).data@.len(),
    {
        if size >= self.data.len() {
            let missing = size - self.data.len();
            let mut i: usize = 0;
            while i < missing
                invariant
                    i <= missing,
                    self.position == old(self).position,
                    self.data@ == old(self).data@ + Seq::new(i as nat, |j: int| 0u8),
                decreases missing - i,
            {
                self.data.push(0);
                proof {
                    assert(self.data@ =~= old(self).data@ + Seq::new((i + 1) as nat, |j: int| 0u8));
                }
                i = i + 1;
            }
        }
    }
}

/// Overwrite one byte of a vector in place.
pub(crate) fn vec_write(v: &mut Vec<u8>, i: usize, value: u8)
    requires
        i < old(v).len(),
    ensures
        final(v)@ == old(v)@.update(i as int, value),
{
    *vstd::std_specs::vec::vec_index_mut(v, i) = value;
}

} // verus!

//! The linear memory region: a fixed-capacity byte array filled through a
//! single bump pointer.  Literal strings go in with a zero terminator so a
//! byte scan can recover them; instruction words go in raw, 16 bytes each.

use vstd::prelude::*;

verus! {

/// The capacity of one memory region.
pub const MAX_MEMORY_SIZE: usize = 1024 * 1024;

/// The sixteen little-endian bytes of a 128-bit instruction word.
pub open spec fn le_bytes_of_u128(w: u128) -> Seq<u8> {
    seq![
        w as u8,
        (w >> 8) as u8,
        (w >> 16) as u8,
        (w >> 24) as u8,
        (w >> 32) as u8,
        (w >> 40) as u8,
        (w >> 48) as u8,
        (w >> 56) as u8,
        (w >> 64) as u8,
        (w >> 72) as u8,
        (w >> 80) as u8,
        (w >> 88) as u8,
        (w >> 96) as u8,
        (w >> 104) as u8,
        (w >> 112) as u8,
        (w >> 120) as u8,
    ]
}

/// The 128-bit word whose little-endian bytes these are.
pub open spec fn u128_of_le_bytes(b: Seq<u8>) -> u128
    recommends
        b.len() == 16,
{
    (b[0] as u128) | ((b[1] as u128) << 8) | ((b[2] as u128) << 16) | ((b[3] as u128) << 24) | ((
    b[4] as u128) << 32) | ((b[5] as u128) << 40) | ((b[6] as u128) << 48) | ((b[7] as u128) << 56)
        | ((b[8] as u128) << 64) | ((b[9] as u128) << 72) | ((b[10] as u128) << 80) | ((
    b[11] as u128) << 88) | ((b[12] as u128) << 96) | ((b[13] as u128) << 104) | ((b[14] as u128)
        << 112) | ((b[15] as u128) << 120)
}

/// Reassembling a word from its little-endian bytes gives the word back.
pub proof fn lemma_le_bytes_round_trip(w: u128)
    ensures
        u128_of_le_bytes(le_bytes_of_u128(w)) == w,
{
    assert((w as u8 as u128) | (((w >> 8) as u8 as u128) << 8) | (((w >> 16) as u8 as u128) << 16)
        | (((w >> 24) as u8 as u128) << 24) | (((w >> 32) as u8 as u128) << 32) | (((w
        >> 40) as u8 as u128) << 40) | (((w >> 48) as u8 as u128) << 48) | (((w >> 56) as u8 as u128)
        << 56) | (((w >> 64) as u8 as u128) << 64) | (((w >> 72) as u8 as u128) << 72) | (((w
        >> 80) as u8 as u128) << 80) | (((w >> 88) as u8 as u128) << 88) | (((w >> 96) as u8 as u128)
        << 96) | (((w >> 104) as u8 as u128) << 104) | (((w >> 112) as u8 as u128) << 112) | (((w
        >> 120) as u8 as u128) << 120) == w) by (bit_vector);
}

/// The sixteen little-endian bytes of an instruction word, as pushed into
/// memory.
pub fn u128_to_le_bytes(data: u128) -> (r: Vec<u8>)
    ensures
        r@ == le_bytes_of_u128(data),
        r@.len() == 16,
{
    let mut bytes: Vec<u8> = Vec::new();
    bytes.push(data as u8);
    bytes.push((data >> 8) as u8);
    bytes.push((data >> 16) as u8);
    bytes.push((data >> 24) as u8);
    bytes.push((data >> 32) as u8);
    bytes.push((data >> 40) as u8);
    bytes.push((data >> 48) as u8);
    bytes.push((data >> 56) as u8);
    bytes.push((data >> 64) as u8);
    bytes.push((data >> 72) as u8);
    bytes.push((data >> 80) as u8);
    bytes.push((data >> 88) as u8);
    bytes.push((data >> 96) as u8);
    bytes.push((data >> 104) as u8);
    bytes.push((data >> 112) as u8);
    bytes.push((data >> 120) as u8);
    proof {
        assert(bytes@ =~= le_bytes_of_u128(data));
    }
    bytes
}

/// The end of the zero-terminated literal starting at `from`: the index of
/// the first zero byte at or after `from`, or the end of memory when no
/// zero follows.
pub open spec fn literal_end(data: Seq<u8>, from: int) -> int
    recommends
        0 <= from <= data.len(),
    decreases data.len() - from,
{
    if from >= data.len() {
        data.len() as int
    } else if data[from] == 0 {
        from
    } else {
        literal_end(data, from + 1)
    }
}

/// Where the scan for a literal's end stops.
pub proof fn lemma_literal_end(data: Seq<u8>, from: int)
    requires
        0 <= from <= data.len(),
    ensures
        from <= literal_end(data, from) <= data.len(),
        literal_end(data, from) < data.len() ==> data[literal_end(data, from)] == 0,
        forall|j: int| from <= j < literal_end(data, from) ==> data[j] != 0,
    decreases data.len() - from,
{
    if from < data.len() && data[from] != 0 {
        lemma_literal_end(data, from + 1);
    }
}

/// A fixed-capacity contiguous byte region with a single monotonically
/// increasing bump pointer.  No slot is ever reused; the pointer value is
/// also the first free byte, so after encoding it marks the end of the
/// program, `memory_end`.
#[derive(Debug, Clone, PartialEq)]
pub struct Memory {
    pub data: Vec<u8>,
    pub pointer: usize,
}

impl Memory {
    /// A fresh region: full capacity, all zeros, bump pointer at zero.
    pub fn new() -> (r: Memory)
        ensures
            r.data@.len() == MAX_MEMORY_SIZE,
            forall|i: int| 0 <= i < r.data@.len() ==> r.data@[i] == 0,
            r.pointer == 0,
    {
        let mut data: Vec<u8> = Vec::new();
        let mut i: usize = 0;
        while i < MAX_MEMORY_SIZE
            invariant
                i <= MAX_MEMORY_SIZE,
                data@.len() == i,
                forall|j: int| 0 <= j < i ==> data@[j] == 0,
            decreases MAX_MEMORY_SIZE - i,
        {
            data.push(0);
            i = i + 1;
        }
        Memory { data, pointer: 0 }
    }

    /// Appends bytes at the bump pointer and returns the offset they start
    /// at.  With `spacer` one zero byte is written after them, terminating a
    /// string literal; instruction words go in without one.
    pub fn push(&mut self, data: &[u8], spacer: bool) -> (r: usize)
        requires
            old(self).pointer + data@.len() + (if spacer {
                1int
            } else {
                0int
            }) <= old(self).data@.len(),
        ensures
            r == old(self).pointer,
            final(self).data@.len() == old(self).data@.len(),
            final(self).pointer == old(self).pointer + data@.len() + (if spacer {
                1int
            } else {
                0int
            }),
            forall|j: int| 0 <= j < old(self).pointer ==> final(self).data@[j] == old(self).data@[j],
            forall|j: int|
                0 <= j < data@.len() ==> final(self).data@[old(self).pointer + j] == data@[j],
            spacer ==> final(self).data@[old(self).pointer + data@.len()] == 0,
            forall|j: int|
                old(self).pointer + data@.len() + (if spacer {
                    1int
                } else {
                    0int
                }) <= j < old(self).data@.len() ==> final(self).data@[j] == old(self).data@[j],
    {
        proof {
            assert(self.data.len() == self.data@.len());
        }
        let start = self.pointer;
        let mut i: usize = 0;
        while i < data.len()
            invariant
                i <= data@.len(),
                self.data@.len() <= usize::MAX,
                start + data@.len() <= self.data@.len(),
                start == self.pointer,
                self.data@.len() == old(self).data@.len(),
                forall|j: int| 0 <= j < start ==> self.data@[j] == old(self).data@[j],
                forall|j: int| 0 <= j < i ==> self.data@[start + j] == data@[j],
                forall|j: int|
                    start + data@.len() <= j < self.data@.len() ==> self.data@[j] == old(self).data@[j],
            decreases data@.len() - i,
        {
            self.data.set(start + i, data[i]);
            i = i + 1;
        }
        self.pointer = self.pointer + data.len();
        if spacer {
            self.data.set(self.pointer, 0);
            self.pointer = self.pointer + 1;
        }
        start
    }

    /// The 128-bit instruction word whose sixteen bytes sit at `pointer`.
    pub fn get_instruction(&self, pointer: usize) -> (r: u128)
        requires
            pointer + 16 <= self.data@.len(),
        ensures
            r == u128_of_le_bytes(self.data@.subrange(pointer as int, pointer + 16)),
    {
        proof {
            assert(self.data.len() == self.data@.len());
        }
        let b0 = self.data[pointer] as u128;
        let b1 = self.data[pointer + 1] as u128;
        let b2 = self.data[pointer + 2] as u128;
        let b3 = self.data[pointer + 3] as u128;
        let b4 = self.data[pointer + 4] as u128;
        let b5 = self.data[pointer + 5] as u128;
        let b6 = self.data[pointer + 6] as u128;
        let b7 = self.data[pointer + 7] as u128;
        let b8 = self.data[pointer + 8] as u128;
        let b9 = self.data[pointer + 9] as u128;
        let b10 = self.data[pointer + 10] as u128;
        let b11 = self.data[pointer + 11] as u128;
        let b12 = self.data[pointer + 12] as u128;
        let b13 = self.data[pointer + 13] as u128;
        let b14 = self.data[pointer + 14] as u128;
        let b15 = self.data[pointer + 15] as u128;
        b0 | (b1 << 8) | (b2 << 16) | (b3 << 24) | (b4 << 32) | (b5 << 40) | (b6 << 48) | (b7
            << 56) | (b8 << 64) | (b9 << 72) | (b10 << 80) | (b11 << 88) | (b12 << 96) | (b13
            << 104) | (b14 << 112) | (b15 << 120)
    }

    /// The bytes of the zero-terminated literal starting at `pointer`,
    /// without the terminator.
    pub fn get_literal(&self, pointer: usize) -> (r: Vec<u8>)
        requires
            pointer <= self.data@.len(),
        ensures
            r@ == self.data@.subrange(pointer as int, literal_end(self.data@, pointer as int)),
    {
        proof {
            lemma_literal_end(self.data@, pointer as int);
        }
        let ghost stop = literal_end(self.data@, pointer as int);
        let mut out: Vec<u8> = Vec::new();
        let mut i: usize = pointer;
        while i < self.data.len() && self.data[i] != 0
            invariant
                pointer <= i <= self.data@.len(),
                i <= stop <= self.data@.len(),
                stop < self.data@.len() ==> self.data@[stop] == 0,
                forall|j: int| pointer <= j < stop ==> self.data@[j] != 0,
                out@ == self.data@.subrange(pointer as int, i as int),
            decreases self.data@.len() - i,
        {
            proof {
                if i == stop {
                    assert(self.data@[stop] != 0);
                }
            }
            out.push(self.data[i]);
            proof {
                assert(out@ =~= self.data@.subrange(pointer as int, i + 1));
            }
            i = i + 1;
        }
        proof {
            if i < self.data@.len() {
                assert(self.data@[i as int] == 0);
            }
            assert(i == stop) by {
                if i < stop {
                    assert(self.data@[i as int] != 0);
                }
            }
        }
        out
    }

    /// The bump pointer: the first free byte.
    pub fn address(&self) -> (r: usize)
        ensures
            r == self.pointer,
    {
        self.pointer
    }

    /// A copy of the whole region's bytes.
    pub fn raw(&self) -> (r: Vec<u8>)
        ensures
            r@ == self.data@,
    {
        let mut out: Vec<u8> = Vec::new();
        let mut i: usize = 0;
        while i < self.data.len()
            invariant
                i <= self.data@.len(),
                out@ == self.data@.subrange(0, i as int),
            decreases self.data@.len() - i,
        {
            out.push(self.data[i]);
            proof {
                assert(out@ =~= self.data@.subrange(0, i + 1));
            }
            i = i + 1;
        }
        proof {
            assert(out@ =~= self.data@);
        }
        out
    }

    /// The region a compiled program hands back to a fresh machine: its raw
    /// bytes, with the bump pointer at the program's end.
    pub fn from_raw(raw: Vec<u8>, base: usize) -> (r: Memory)
        ensures
            r.data == raw,
            r.pointer == base,
    {
        Memory { data: raw, pointer: base }
    }
}

} // verus!

use vstd::prelude::*;
use vstd::slice::slice_subrange;

use crate::error::{end_of_data, BARResult};

verus! {

/// The little-endian `u32` held in `b[i..i + 4]`.
pub open spec fn le_u32(b: Seq<u8>, i: int) -> u32 {
    ((b[i] as u32) | ((b[i + 1] as u32) << 8u32) | ((b[i + 2] as u32) << 16u32) | ((b[i + 3] as u32)
        << 24u32)) as u32
}

/// The big-endian `u32` held in `b[i..i + 4]`.
pub open spec fn be_u32(b: Seq<u8>, i: int) -> u32 {
    le_u32(seq![b[i + 3], b[i + 2], b[i + 1], b[i]], 0)
}

/// The four little-endian bytes of `v`.
pub open spec fn le_bytes(v: u32) -> Seq<u8> {
    seq![(v & 0xff) as u8, ((v >> 8u32) & 0xff) as u8, ((v >> 16u32) & 0xff) as u8, ((v >> 24u32) & 0xff) as u8]
}

/// The four big-endian bytes of `v`.
pub open spec fn be_bytes(v: u32) -> Seq<u8> {
    seq![le_bytes(v)[3], le_bytes(v)[2], le_bytes(v)[1], le_bytes(v)[0]]
}

pub proof fn lemma_le_u32_of_le_bytes(v: u32)
    ensures
        le_u32(le_bytes(v), 0) == v,
{
    let b = le_bytes(v);
    let (x0, x1, x2, x3) = (v & 0xff, (v >> 8u32) & 0xff, (v >> 16u32) & 0xff, (v >> 24u32) & 0xff);
    assert(x0 < 256 && x1 < 256 && x2 < 256 && x3 < 256) by (bit_vector)
        requires
            x0 == v & 0xff,
            x1 == (v >> 8u32) & 0xff,
            x2 == (v >> 16u32) & 0xff,
            x3 == (v >> 24u32) & 0xff,
    ;
    assert(b[0] as u32 == x0 && b[1] as u32 == x1 && b[2] as u32 == x2 && b[3] as u32 == x3);
    assert(x0 | (x1 << 8u32) | (x2 << 16u32) | (x3 << 24u32) == v) by (bit_vector)
        requires
            x0 == v & 0xff,
            x1 == (v >> 8u32) & 0xff,
            x2 == (v >> 16u32) & 0xff,
            x3 == (v >> 24u32) & 0xff,
    ;
}

pub proof fn lemma_le_bytes_of_le_u32(b: Seq<u8>, i: int)
    requires
        0 <= i,
        i + 4 <= b.len(),
    ensures
        le_bytes(le_u32(b, i)) == b.subrange(i, i + 4),
{
    let (b0, b1, b2, b3) = (b[i], b[i + 1], b[i + 2], b[i + 3]);
    let v = le_u32(b, i);
    assert(v == (b0 as u32) | ((b1 as u32) << 8u32) | ((b2 as u32) << 16u32) | ((b3 as u32) << 24u32));
    assert(((b0 as u32) | ((b1 as u32) << 8u32) | ((b2 as u32) << 16u32) | ((b3 as u32) << 24u32))
        & 0xff == b0 as u32) by (bit_vector);
    assert((((b0 as u32) | ((b1 as u32) << 8u32) | ((b2 as u32) << 16u32) | ((b3 as u32) << 24u32))
        >> 8u32) & 0xff == b1 as u32) by (bit_vector);
    assert((((b0 as u32) | ((b1 as u32) << 8u32) | ((b2 as u32) << 16u32) | ((b3 as u32) << 24u32))
        >> 16u32) & 0xff == b2 as u32) by (bit_vector);
    assert((((b0 as u32) | ((b1 as u32) << 8u32) | ((b2 as u32) << 16u32) | ((b3 as u32) << 24u32))
        >> 24u32) & 0xff == b3 as u32) by (bit_vector);
    assert(le_bytes(v) =~= b.subrange(i, i + 4));
}

/// Reads the little-endian `u32` at `b[i..i + 4]`.
pub fn read_u32_le(b: &[u8], i: usize) -> (r: u32)
    requires
        i + 4 <= b@.len(),
    ensures
        r == le_u32(b@, i as int),
{
    (b[i] as u32) | ((b[i + 1] as u32) << 8u32) | ((b[i + 2] as u32) << 16u32) | ((b[i + 3] as u32)
        << 24u32)
}

/// Appends the four little-endian bytes of `v`.
pub fn push_u32_le(out: &mut Vec<u8>, v: u32)
    ensures
        final(out)@ == old(out)@ + le_bytes(v),
{
    out.push((v & 0xff) as u8);
    out.push(((v >> 8u32) & 0xff) as u8);
    out.push(((v >> 16u32) & 0xff) as u8);
    out.push(((v >> 24u32) & 0xff) as u8);
    assert(final(out)@ =~= old(out)@ + le_bytes(v));
}

/// The concatenated encodings of a sequence of records.
pub open spec fn encode_all<T: BinaryStruct>(s: Seq<T::V>) -> Seq<u8>
    decreases s.len(),
{
    if s.len() == 0 {
        seq![]
    } else {
        encode_all::<T>(s.drop_last()) + T::spec_to_bytes(s.last())
    }
}

/// A fixed-size record of the archive, read from and written to bytes.
pub trait BinaryStruct: Sized + View {
    /// The number of bytes of one record.
    spec fn spec_byte_size() -> nat;

    /// The record that `buf` encodes.
    spec fn spec_from_bytes(buf: Seq<u8>) -> Self::V;

    /// The bytes that encode `v`.
    spec fn spec_to_bytes(v: Self::V) -> Seq<u8>;

    fn byte_size() -> (r: usize)
        ensures
            r == Self::spec_byte_size(),
            0 < r <= 16,
    ;

    fn from_bytes(buf: &[u8]) -> (r: Self)
        requires
            buf@.len() == Self::spec_byte_size(),
        ensures
            r@ == Self::spec_from_bytes(buf@),
    ;

    fn to_bytes(&self) -> (r: Vec<u8>)
        ensures
            r@ == Self::spec_to_bytes(self@),
    ;

    /// Reads one record at `pos`; a record that runs past the end of `data` is an
    /// I/O failure.
    fn read_from(data: &[u8], pos: usize) -> (r: BARResult<Self>)
        ensures
            pos + Self::spec_byte_size() <= data@.len() ==> (r matches Ok(v) && v@
                == Self::spec_from_bytes(data@.subrange(pos as int, pos + Self::spec_byte_size()))),
            pos + Self::spec_byte_size() > data@.len() ==> (r matches Err(e) && e is IOError),
    {
        let n = Self::byte_size();
        if pos > data.len() || n > data.len() - pos {
            return Err(end_of_data());
        }
        let buf = slice_subrange(data, pos, pos + n);
        Ok(Self::from_bytes(buf))
    }

    /// Appends the encoding of this record to `out`.
    fn write_to(&self, out: &mut Vec<u8>)
        ensures
            final(out)@ == old(out)@ + Self::spec_to_bytes(self@),
    {
        let mut bytes = self.to_bytes();
        out.append(&mut bytes);
    }

    /// Reads `size` consecutive records starting at `pos`, all or none.
    fn read_array(size: usize, data: &[u8], pos: usize) -> (r: BARResult<Vec<Self>>)
        ensures
            pos + size * Self::spec_byte_size() <= data@.len() ==> (r matches Ok(v) && v@.len()
                == size && forall|i: int|
                #![trigger v@[i]]
                0 <= i < size ==> v@[i]@ == Self::spec_from_bytes(
                    data@.subrange(
                        pos + i * Self::spec_byte_size(),
                        pos + (i + 1) * Self::spec_byte_size(),
                    ),
                )),
            pos + size * Self::spec_byte_size() > data@.len() ==> (r matches Err(e) && e is IOError),
    {
        let n = Self::byte_size();
        if pos > data.len() || size > (data.len() - pos) / n {
            proof {
                if pos <= data@.len() {
                    assert(size * n > data@.len() - pos) by (nonlinear_arith)
                        requires
                            size > (data@.len() - pos) / (n as int),
                            n > 0,
                            data@.len() - pos >= 0,
                    ;
                }
            }
            return Err(end_of_data());
        }
        proof {
            assert(size * n <= data@.len() - pos) by (nonlinear_arith)
                requires
                    size <= (data@.len() - pos) / (n as int),
                    n > 0,
                    data@.len() - pos >= 0,
            ;
        }
        assert(data@.len() == data.len());
        let mut results: Vec<Self> = Vec::new();
        let mut i: usize = 0;
        while i < size
            invariant
                n == Self::spec_byte_size(),
                0 < n <= 16,
                i <= size,
                pos + size * n <= data@.len() <= usize::MAX,
                results@.len() == i,
                forall|j: int|
                    #![trigger results@[j]]
                    0 <= j < i ==> results@[j]@ == Self::spec_from_bytes(
                        data@.subrange(pos + j * n, pos + (j + 1) * n),
                    ),
            decreases size - i,
        {
            proof {
                assert((i + 1) * n <= size * n) by (nonlinear_arith)
                    requires
                        i < size,
                        n > 0,
                ;
                assert((i + 1) * n == i * n + n) by (nonlinear_arith);
                assert(0 <= i * n) by (nonlinear_arith)
                    requires
                        i >= 0,
                        n > 0,
                ;
            }
            let start: usize = pos + i * n;
            let entry = Self::from_bytes(slice_subrange(data, start, start + n));
            results.push(entry);
            i = i + 1;
        }
        Ok(results)
    }

}

/// Appends the encodings of all `entries` to `out`.
pub fn write_array<T: BinaryStruct>(entries: &Vec<T>, out: &mut Vec<u8>)
    ensures
        final(out)@ == old(out)@ + encode_all::<T>(entries@.map_values(|e: T| e@)),
{
    let mut i: usize = 0;
    while i < entries.len()
        invariant
            i <= entries@.len(),
            out@ == old(out)@ + encode_all::<T>(
                entries@.subrange(0, i as int).map_values(|e: T| e@),
            ),
        decreases entries@.len() - i,
    {
        entries[i].write_to(out);
        proof {
            let prev = entries@.subrange(0, i as int).map_values(|e: T| e@);
            let next = entries@.subrange(0, i + 1).map_values(|e: T| e@);
            assert(next.drop_last() =~= prev);
            assert(next.last() == entries@[i as int]@);
        }
        i = i + 1;
    }
    assert(entries@.subrange(0, entries@.len() as int) =~= entries@);
}

} // verus!

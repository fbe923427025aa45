use vstd::prelude::*;

verus! {

/// Big-endian 16-bit value stored at `pos` and `pos + 1`.
pub open spec fn be16_value(data: Seq<u8>, pos: int) -> int {
    data[pos] as int * 256 + data[pos + 1] as int
}

/// Big-endian 32-bit value stored at `pos .. pos + 4`.
pub open spec fn be32_value(data: Seq<u8>, pos: int) -> int {
    ((data[pos] as int * 256 + data[pos + 1] as int) * 256 + data[pos + 2] as int) * 256
        + data[pos + 3] as int
}

/// The two big-endian bytes of `v`.
pub open spec fn be16_bytes(v: u16) -> Seq<u8> {
    seq![(v / 256) as u8, (v % 256) as u8]
}

/// Appends every byte of `src` to `out`.
pub fn extend_bytes(out: &mut Vec<u8>, src: &[u8])
    ensures
        final(out)@ == old(out)@ + src@,
{
    let ghost start = out@;
    let mut i: usize = 0;
    while i < src.len()
        invariant
            i <= src.len(),
            out@ == start + src@.subrange(0, i as int),
        decreases src.len() - i,
    {
        out.push(src[i]);
        i += 1;
        assert(src@.subrange(0, i as int) == src@.subrange(0, i - 1) + seq![src@[i - 1]]);
    }
    assert(src@.subrange(0, src@.len() as int) == src@);
}

/// Reads the big-endian 16-bit value at `pos`.
pub fn read_be16(data: &[u8], pos: usize) -> (v: usize)
    requires
        pos + 2 <= data@.len(),
    ensures
        v == be16_value(data@, pos as int),
{
    data[pos] as usize * 256 + data[pos + 1] as usize
}

/// Reads the big-endian 32-bit value at `pos`.
pub fn read_be32(data: &[u8], pos: usize) -> (v: usize)
    requires
        pos + 4 <= data@.len(),
    ensures
        v == be32_value(data@, pos as int),
{
    ((data[pos] as usize * 256 + data[pos + 1] as usize) * 256 + data[pos + 2] as usize) * 256
        + data[pos + 3] as usize
}

} // verus!

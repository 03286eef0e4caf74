use vstd::prelude::*;

use byteorder::{ByteOrder, LittleEndian};

verus! {

/// The four bytes of `n`, least significant first.
pub open spec fn le_bytes_u32(n: u32) -> Seq<u8> {
    seq![
        (n % 256) as u8,
        ((n / 256) % 256) as u8,
        ((n / 65536) % 256) as u8,
        (n / 16777216) as u8,
    ]
}

/// The two bytes of `n`, least significant first.
pub open spec fn le_bytes_u16(n: u16) -> Seq<u8> {
    seq![(n % 256) as u8, (n / 256) as u8]
}

/// The number whose little-endian bytes stand in `b` from `off` on.
pub open spec fn le_u32_at(b: Seq<u8>, off: int) -> int {
    b[off] + 256 * b[off + 1] + 65536 * b[off + 2] + 16777216 * b[off + 3]
}

/// The chunks of `cs` one after another.
pub open spec fn concat(cs: Seq<Seq<u8>>) -> Seq<u8>
    decreases cs.len(),
{
    if cs.len() == 0 {
        Seq::empty()
    } else {
        concat(cs.drop_last()) + cs.last()
    }
}

/// Reading back the bytes of a number gives the number.
pub proof fn lemma_le_u32_round_trip(n: u32)
    ensures
        le_u32_at(le_bytes_u32(n), 0) == n,
{
    let b = le_bytes_u32(n);
    let x = n as int;
    assert(b[0] == x % 256 && b[1] == (x / 256) % 256 && b[2] == (x / 65536) % 256 && b[3] == x
        / 16777216);
    assert(x % 256 + 256 * ((x / 256) % 256) + 65536 * ((x / 65536) % 256) + 16777216 * (x
        / 16777216) == x) by (nonlinear_arith)
        requires
            0 <= x < 0x1_0000_0000,
    {
        assert(x == 256 * (x / 256) + x % 256);
        assert(x / 256 == 256 * (x / 65536) + (x / 256) % 256);
        assert(x / 65536 == 256 * (x / 16777216) + (x / 65536) % 256);
    }
}

/// Where every chunk has `size` bytes, byte `i` of chunk `k` stands at
/// `size * k + i` of the concatenation.
pub proof fn lemma_concat_index(cs: Seq<Seq<u8>>, size: int)
    requires
        0 <= size,
        forall|k: int| 0 <= k < cs.len() ==> (#[trigger] cs[k]).len() == size,
    ensures
        concat(cs).len() == size * cs.len(),
        forall|k: int, i: int|
            0 <= k < cs.len() && 0 <= i < size ==> concat(cs)[size * k + i] == #[trigger] cs[k][i],
    decreases cs.len(),
{
    if cs.len() > 0 {
        let init = cs.drop_last();
        lemma_concat_index(init, size);
        assert(size * cs.len() == size * init.len() + size) by (nonlinear_arith)
            requires
                init.len() + 1 == cs.len(),
        ;
        assert forall|k: int, i: int| 0 <= k < cs.len() && 0 <= i < size implies concat(cs)[size
            * k + i] == #[trigger] cs[k][i] by {
            if k < init.len() {
                assert(size * k + i < size * init.len()) by (nonlinear_arith)
                    requires
                        0 <= k,
                        0 <= i,
                        k + 1 <= init.len(),
                        i < size,
                ;
                assert(init[k] == cs[k]);
            }
        }
    }
}

/// Relies on byteorder's `LittleEndian::read_u32`: the four bytes from `off`
/// on, read least significant first.
#[verifier::external_body]
pub(crate) fn read_u32_le(b: &[u8], off: usize) -> (r: u32)
    requires
        off + 4 <= b@.len(),
    ensures
        r as int == le_u32_at(b@, off as int),
{
    LittleEndian::read_u32(&b[off..off + 4])
}

/// Relies on byteorder's `LittleEndian::write_u32`: appends the four bytes of
/// `n`, least significant first.
#[verifier::external_body]
pub(crate) fn push_u32_le(out: &mut Vec<u8>, n: u32)
    ensures
        final(out)@ == old(out)@ + le_bytes_u32(n),
{
    let mut buf = [0u8; 4];
    LittleEndian::write_u32(&mut buf, n);
    out.extend_from_slice(&buf);
}

/// Relies on byteorder's `LittleEndian::write_u16`: appends the two bytes of
/// `n`, least significant first.
#[verifier::external_body]
pub(crate) fn push_u16_le(out: &mut Vec<u8>, n: u16)
    ensures
        final(out)@ == old(out)@ + le_bytes_u16(n),
{
    let mut buf = [0u8; 2];
    LittleEndian::write_u16(&mut buf, n);
    out.extend_from_slice(&buf);
}

} // verus!

use vstd::prelude::*;

use crate::bytes::{
    concat, lemma_concat_index, lemma_le_u32_round_trip, le_bytes_u16, le_bytes_u32, le_u32_at,
    push_u16_le, push_u32_le, read_u32_le,
};
use crate::error::MeshError;

verus! {

/// Length of the STL header.
pub const HEADER_LEN: usize = 80;

/// Offset of the first triangle record.
pub const RECORDS_START: usize = 84;

/// Length of one triangle record.
pub const RECORD_LEN: usize = 50;

/// One triangle record of an STL file, each coordinate held as the bit
/// pattern of its single-precision float.
#[derive(Debug, Clone, Copy)]
pub struct StlFacet {
    pub normal: [u32; 3],
    pub vertices: [[u32; 3]; 3],
}

/// The twelve words of a record: the normal, then the three corners.
pub open spec fn facet_words(f: StlFacet) -> Seq<u32> {
    seq![
        f.normal[0], f.normal[1], f.normal[2],
        f.vertices[0][0], f.vertices[0][1], f.vertices[0][2],
        f.vertices[1][0], f.vertices[1][1], f.vertices[1][2],
        f.vertices[2][0], f.vertices[2][1], f.vertices[2][2],
    ]
}

/// The bytes of `words`, each little-endian.
pub open spec fn words_bytes(words: Seq<u32>) -> Seq<u8> {
    concat(words.map_values(|w: u32| le_bytes_u32(w)))
}

/// The 50 bytes of a record: its twelve words and a zero attribute count.
pub open spec fn facet_bytes(f: StlFacet) -> Seq<u8> {
    words_bytes(facet_words(f)) + le_bytes_u16(0)
}

/// The records of `fs`, one after another.
pub open spec fn facets_bytes(fs: Seq<StlFacet>) -> Seq<u8> {
    concat(fs.map_values(|f: StlFacet| facet_bytes(f)))
}

/// A binary STL file holding `fs`: a zero header, the count, the records.
pub open spec fn stl_bytes(fs: Seq<StlFacet>) -> Seq<u8> {
    Seq::new(80, |i: int| 0u8) + le_bytes_u32(fs.len() as u32) + facets_bytes(fs)
}

/// The triangle count that `b` declares.
pub open spec fn declared_count(b: Seq<u8>) -> int {
    le_u32_at(b, 80)
}

/// `b` holds a header, a count, and at least that many records.
pub open spec fn stl_complete(b: Seq<u8>) -> bool {
    &&& b.len() >= 84
    &&& b.len() >= 84 + 50 * declared_count(b)
}

/// Corner `j` of record `k` in `b`.
pub open spec fn corner_at(b: Seq<u8>, k: int, j: int) -> [u32; 3] {
    let off = 84 + 50 * k + 12 + 12 * j;
    [le_u32_at(b, off) as u32, le_u32_at(b, off + 4) as u32, le_u32_at(b, off + 8) as u32]
}

/// The corners of every record that `b` declares, in order.
pub open spec fn stl_corners(b: Seq<u8>) -> Seq<[[u32; 3]; 3]> {
    Seq::new(
        declared_count(b) as nat,
        |k: int| [corner_at(b, k, 0), corner_at(b, k, 1), corner_at(b, k, 2)],
    )
}

/// Appends the record of `f`.
fn push_facet(out: &mut Vec<u8>, f: &StlFacet)
    ensures
        final(out)@ == old(out)@ + facet_bytes(*f),
{
    let words: [u32; 12] = [
        f.normal[0], f.normal[1], f.normal[2],
        f.vertices[0][0], f.vertices[0][1], f.vertices[0][2],
        f.vertices[1][0], f.vertices[1][1], f.vertices[1][2],
        f.vertices[2][0], f.vertices[2][1], f.vertices[2][2],
    ];
    assert(words@ =~= facet_words(*f));
    let mut w: usize = 0;
    while w < 12
        invariant
            w <= 12,
            words@ == facet_words(*f),
            out@ == old(out)@ + words_bytes(words@.take(w as int)),
        decreases 12 - w,
    {
        push_u32_le(out, words[w]);
        assert(words@.take(w + 1).map_values(|x: u32| le_bytes_u32(x)).drop_last()
            =~= words@.take(w as int).map_values(|x: u32| le_bytes_u32(x)));
        assert(out@ =~= old(out)@ + words_bytes(words@.take(w + 1)));
        w += 1;
    }
    assert(words@.take(12) =~= words@);
    push_u16_le(out, 0);
    assert(out@ =~= old(out)@ + facet_bytes(*f));
}

/// The binary STL form of `facets`: an 80-byte zero header, the triangle
/// count, and one 50-byte record per facet with a zero attribute count.
pub fn encode_stl(facets: &Vec<StlFacet>) -> (r: Vec<u8>)
    requires
        facets@.len() <= u32::MAX,
    ensures
        r@ == stl_bytes(facets@),
{
    let mut out: Vec<u8> = Vec::new();
    let mut i: usize = 0;
    while i < HEADER_LEN
        invariant
            i <= 80,
            out@ == Seq::new(i as nat, |k: int| 0u8),
        decreases 80 - i,
    {
        out.push(0u8);
        assert(out@ =~= Seq::new((i + 1) as nat, |k: int| 0u8));
        i += 1;
    }
    push_u32_le(&mut out, facets.len() as u32);
    let ghost head = out@;
    let mut k: usize = 0;
    while k < facets.len()
        invariant
            k <= facets@.len(),
            out@ == head + facets_bytes(facets@.take(k as int)),
        decreases facets@.len() - k,
    {
        push_facet(&mut out, &facets[k]);
        assert(facets@.take(k + 1).map_values(|f: StlFacet| facet_bytes(f)).drop_last()
            =~= facets@.take(k as int).map_values(|f: StlFacet| facet_bytes(f)));
        assert(out@ =~= head + facets_bytes(facets@.take(k + 1)));
        k += 1;
    }
    assert(facets@.take(facets@.len() as int) =~= facets@);
    assert(out@ =~= stl_bytes(facets@));
    out
}

/// The corner whose three words start at `off`.
fn read_corner(b: &[u8], off: usize) -> (r: [u32; 3])
    requires
        off + 12 <= b@.len(),
    ensures
        r == [
            le_u32_at(b@, off as int) as u32,
            le_u32_at(b@, off + 4) as u32,
            le_u32_at(b@, off + 8) as u32,
        ],
{
    let len = b.len();
    let x = read_u32_le(b, off);
    let y = read_u32_le(b, off + 4);
    let z = read_u32_le(b, off + 8);
    [x, y, z]
}

/// Reads the corners of every triangle record of a binary STL file. The
/// header's content and the stored normals and attribute counts are
/// ignored, and so are bytes after the last declared record. Fails with
/// `ParseError` where the data ends before the count or before the last
/// declared record.
pub fn decode_stl(bytes: &[u8]) -> (r: Result<Vec<[[u32; 3]; 3]>, MeshError>)
    ensures
        r is Ok <==> stl_complete(bytes@),
        r matches Ok(v) ==> v@ == stl_corners(bytes@),
        r is Err ==> r == Err::<Vec<[[u32; 3]; 3]>, MeshError>(MeshError::ParseError),
{
    if bytes.len() < RECORDS_START {
        return Err(MeshError::ParseError);
    }
    let count = read_u32_le(bytes, HEADER_LEN);
    let len = bytes.len();
    let avail = (len - RECORDS_START) / RECORD_LEN;
    let n = count as usize;
    proof {
        let c = n as int;
        let a = avail as int;
        let room = len - 84;
        assert(a == room / 50);
        assert(c <= a <==> 84 + 50 * c <= len) by (nonlinear_arith)
            requires
                a == room / 50,
                room == len - 84,
                0 <= room,
                0 <= c,
        {
            assert(room == 50 * (room / 50) + room % 50);
        }
    }
    if n > avail {
        return Err(MeshError::ParseError);
    }
    let mut out: Vec<[[u32; 3]; 3]> = Vec::new();
    let mut k: usize = 0;
    while k < n
        invariant
            k <= n,
            len == bytes@.len(),
            n == declared_count(bytes@),
            84 + 50 * n <= bytes@.len(),
            out@ == stl_corners(bytes@).take(k as int),
        decreases n - k,
    {
        assert(84 + 50 * k + 50 <= 84 + 50 * n) by (nonlinear_arith)
            requires
                k < n,
        ;
        let base = RECORDS_START + RECORD_LEN * k + 12;
        let a = read_corner(bytes, base);
        let b = read_corner(bytes, base + 12);
        let c = read_corner(bytes, base + 24);
        out.push([a, b, c]);
        assert(out@ =~= stl_corners(bytes@).take(k + 1));
        k += 1;
    }
    assert(out@ =~= stl_corners(bytes@));
    Ok(out)
}

/// Byte `i` of word `w` of a record stands at `4 * w + i`.
proof fn lemma_facet_bytes(f: StlFacet)
    ensures
        facet_bytes(f).len() == 50,
        forall|w: int, i: int|
            0 <= w < 12 && 0 <= i < 4 ==> facet_bytes(f)[4 * w + i] == #[trigger] le_bytes_u32(
                facet_words(f)[w],
            )[i],
{
    let ws = facet_words(f).map_values(|w: u32| le_bytes_u32(w));
    lemma_concat_index(ws, 4);
    assert forall|w: int, i: int| 0 <= w < 12 && 0 <= i < 4 implies facet_bytes(f)[4 * w + i]
        == #[trigger] le_bytes_u32(facet_words(f)[w])[i] by {
        assert(ws[w] == le_bytes_u32(facet_words(f)[w]));
    }
}

/// Byte `m` of record `k` stands at `84 + 50 * k + m` of the file.
proof fn lemma_stl_bytes_layout(fs: Seq<StlFacet>)
    ensures
        stl_bytes(fs).len() == 84 + 50 * fs.len(),
        forall|k: int, m: int|
            0 <= k < fs.len() && 0 <= m < 50 ==> stl_bytes(fs)[84 + 50 * k + m]
                == #[trigger] facet_bytes(fs[k])[m],
{
    let records = fs.map_values(|f: StlFacet| facet_bytes(f));
    assert forall|k: int| 0 <= k < records.len() implies (#[trigger] records[k]).len() == 50 by {
        lemma_facet_bytes(fs[k]);
    }
    lemma_concat_index(records, 50);
    assert forall|k: int, m: int| 0 <= k < fs.len() && 0 <= m < 50 implies stl_bytes(fs)[84 + 50
        * k + m] == #[trigger] facet_bytes(fs[k])[m] by {
        assert(records[k] == facet_bytes(fs[k]));
        assert(facets_bytes(fs)[50 * k + m] == records[k][m]);
        assert(0 <= 50 * k + m < 50 * fs.len()) by (nonlinear_arith)
            requires
                0 <= k < fs.len(),
                0 <= m < 50,
        ;
    }
}

/// Word `w` of record `k` reads back as written.
proof fn lemma_word_at(fs: Seq<StlFacet>, k: int, w: int)
    requires
        0 <= k < fs.len(),
        0 <= w < 12,
    ensures
        le_u32_at(stl_bytes(fs), 84 + 50 * k + 4 * w) == facet_words(fs[k])[w],
{
    let b = stl_bytes(fs);
    let word = facet_words(fs[k])[w];
    lemma_stl_bytes_layout(fs);
    lemma_facet_bytes(fs[k]);
    assert forall|i: int| 0 <= i < 4 implies #[trigger] b[84 + 50 * k + 4 * w + i] == le_bytes_u32(
        word,
    )[i] by {
        assert(b[84 + 50 * k + (4 * w + i)] == facet_bytes(fs[k])[4 * w + i]);
    }
    lemma_le_u32_round_trip(word);
}

/// The corners read from record `k` are those written there.
proof fn lemma_record_corners(fs: Seq<StlFacet>, k: int)
    requires
        0 <= k < fs.len(),
    ensures
        [
            corner_at(stl_bytes(fs), k, 0),
            corner_at(stl_bytes(fs), k, 1),
            corner_at(stl_bytes(fs), k, 2),
        ] == fs[k].vertices,
{
    let b = stl_bytes(fs);
    let f = fs[k];
    assert forall|j: int| 0 <= j < 3 implies #[trigger] corner_at(b, k, j) == f.vertices[j] by {
        lemma_word_at(fs, k, 3 + 3 * j);
        lemma_word_at(fs, k, 3 + 3 * j + 1);
        lemma_word_at(fs, k, 3 + 3 * j + 2);
        assert(corner_at(b, k, j)@ =~= f.vertices[j]@);
    }
    assert([corner_at(b, k, 0), corner_at(b, k, 1), corner_at(b, k, 2)]@ =~= f.vertices@);
}

/// Writing facets out as STL and reading the result back gives each
/// facet's corners, in order: the stored count and every coordinate survive
/// bit for bit.
pub proof fn lemma_stl_round_trip(fs: Seq<StlFacet>)
    requires
        fs.len() <= u32::MAX,
    ensures
        stl_complete(stl_bytes(fs)),
        stl_corners(stl_bytes(fs)) == fs.map_values(|f: StlFacet| f.vertices),
{
    let b = stl_bytes(fs);
    lemma_stl_bytes_layout(fs);
    assert(b.subrange(80, 84) =~= le_bytes_u32(fs.len() as u32));
    assert(b[80] == le_bytes_u32(fs.len() as u32)[0]);
    assert(b[81] == le_bytes_u32(fs.len() as u32)[1]);
    assert(b[82] == le_bytes_u32(fs.len() as u32)[2]);
    assert(b[83] == le_bytes_u32(fs.len() as u32)[3]);
    lemma_le_u32_round_trip(fs.len() as u32);
    assert(declared_count(b) == fs.len());
    assert forall|k: int| 0 <= k < fs.len()
        implies #[trigger] stl_corners(b)[k] == fs[k].vertices by {
        lemma_record_corners(fs, k);
    }
    assert(stl_corners(b) =~= fs.map_values(|f: StlFacet| f.vertices));
}

} // verus!

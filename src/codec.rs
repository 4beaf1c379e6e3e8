use vstd::prelude::*;
use crate::delta::{Delta, DeltaView, Glyph};
use crate::error::DocError;

verus! {

/// Bytes in the revision envelope before the payload: the revision id.
pub const REV_ID_BYTES: usize = 8;

/// Bytes in a delta payload before its cells: base length, index, delete count.
pub const DELTA_HEADER_BYTES: usize = 12;

/// A unit of change from one participant: a delta payload and its id.
#[derive(Debug, PartialEq, Eq)]
pub struct Revision {
    pub rev_id: u64,
    pub delta_data: Vec<u8>,
}

/// The big-endian value of the four bytes of `b` from `at`.
pub open spec fn be_u32(b: Seq<u8>, at: int) -> int {
    b[at] * 16777216 + b[at + 1] * 65536 + b[at + 2] * 256 + b[at + 3]
}

/// The big-endian value of the eight bytes of `b` from `at`.
pub open spec fn be_u64(b: Seq<u8>, at: int) -> int {
    be_u32(b, at) * 4294967296 + be_u32(b, at + 4)
}

/// Cells read from byte pairs (text byte, style byte).
pub open spec fn cells_of(b: Seq<u8>) -> Seq<Glyph> {
    Seq::new(b.len() / 2, |i: int| Glyph { ch: b[2 * i], style: b[2 * i + 1] })
}

/// Byte pairs (text byte, style byte) of cells.
pub open spec fn bytes_of(s: Seq<Glyph>) -> Seq<u8> {
    Seq::new(2 * s.len(), |j: int| if j % 2 == 0 { s[j / 2].ch } else { s[j / 2].style })
}

/// The delta that a well-formed payload encodes.
pub open spec fn payload_delta(b: Seq<u8>) -> DeltaView {
    DeltaView {
        base_len: be_u32(b, 0) as nat,
        index: be_u32(b, 4) as nat,
        delete: be_u32(b, 8) as nat,
        insert: cells_of(b.subrange(DELTA_HEADER_BYTES as int, b.len() as int)),
    }
}

pub open spec fn payload_well_formed(b: Seq<u8>) -> bool {
    b.len() >= DELTA_HEADER_BYTES && (b.len() - DELTA_HEADER_BYTES) % 2 == 0
}

/// The exported form of a document: the payload of its body delta.
pub open spec fn export_bytes(content: Seq<Glyph>) -> Seq<u8> {
    Seq::new(DELTA_HEADER_BYTES as nat, |i: int| 0u8) + bytes_of(content)
}

fn read_u32(b: &Vec<u8>, at: usize) -> (r: u32)
    requires
        at + 4 <= b@.len(),
    ensures
        r == be_u32(b@, at as int),
{
    let _n = b.len();
    let b0 = b[at] as u32;
    let b1 = b[at + 1] as u32;
    let b2 = b[at + 2] as u32;
    let b3 = b[at + 3] as u32;
    assert(b0 * 16777216 + b1 * 65536 + b2 * 256 + b3 <= 0xFFFF_FFFF) by (nonlinear_arith)
        requires
            b0 <= 255,
            b1 <= 255,
            b2 <= 255,
            b3 <= 255,
    ;
    b0 * 16777216 + b1 * 65536 + b2 * 256 + b3
}

/// Splits revision bytes into the revision id and the payload. `Decode`
/// where the envelope is shorter than the id.
pub fn decode_revision(bytes: &Vec<u8>) -> (r: Result<Revision, DocError>)
    ensures
        bytes@.len() < REV_ID_BYTES ==> r == Err::<Revision, DocError>(DocError::Decode),
        bytes@.len() >= REV_ID_BYTES ==> (r matches Ok(rev) && rev.rev_id == be_u64(bytes@, 0)
            && rev.delta_data@ == bytes@.subrange(REV_ID_BYTES as int, bytes@.len() as int)),
{
    if bytes.len() < REV_ID_BYTES {
        return Err(DocError::Decode);
    }
    let hi = read_u32(bytes, 0);
    let lo = read_u32(bytes, 4);
    let rev_id = (hi as u64) * 4294967296 + (lo as u64);
    let mut delta_data: Vec<u8> = Vec::new();
    let mut i: usize = REV_ID_BYTES;
    while i < bytes.len()
        invariant
            REV_ID_BYTES <= i <= bytes@.len(),
            delta_data@ =~= bytes@.subrange(REV_ID_BYTES as int, i as int),
        decreases bytes.len() - i,
    {
        delta_data.push(bytes[i]);
        i = i + 1;
    }
    Ok(Revision { rev_id, delta_data })
}

/// Reads a delta from its payload. `Decode` where the payload is shorter
/// than its header or its cells are not whole byte pairs.
pub fn decode_delta(bytes: &Vec<u8>) -> (r: Result<Delta, DocError>)
    ensures
        !payload_well_formed(bytes@) ==> r == Err::<Delta, DocError>(DocError::Decode),
        payload_well_formed(bytes@) ==> (r matches Ok(d) && d@ == payload_delta(bytes@)),
{
    if bytes.len() < DELTA_HEADER_BYTES || (bytes.len() - DELTA_HEADER_BYTES) % 2 != 0 {
        return Err(DocError::Decode);
    }
    let base_len = read_u32(bytes, 0) as usize;
    let index = read_u32(bytes, 4) as usize;
    let delete = read_u32(bytes, 8) as usize;
    let _n = bytes.len();
    let ghost body = bytes@.subrange(DELTA_HEADER_BYTES as int, bytes@.len() as int);
    let count = (bytes.len() - DELTA_HEADER_BYTES) / 2;
    let mut insert: Vec<Glyph> = Vec::new();
    let mut i: usize = 0;
    while i < count
        invariant
            DELTA_HEADER_BYTES <= bytes@.len() <= usize::MAX,
            body.len() == bytes@.len() - DELTA_HEADER_BYTES,
            count == body.len() / 2,
            body.len() % 2 == 0,
            body == bytes@.subrange(DELTA_HEADER_BYTES as int, bytes@.len() as int),
            i <= count,
            insert@ =~= cells_of(body).subrange(0, i as int),
        decreases count - i,
    {
        let at = DELTA_HEADER_BYTES + 2 * i;
        insert.push(Glyph { ch: bytes[at], style: bytes[at + 1] });
        i = i + 1;
    }
    assert(cells_of(body).subrange(0, count as int) =~= cells_of(body));
    Ok(Delta { base_len, index, delete, insert })
}

/// The exported form of a document's cells.
pub fn export(content: &Vec<Glyph>) -> (r: Vec<u8>)
    ensures
        r@ == export_bytes(content@),
{
    let mut out: Vec<u8> = Vec::new();
    let mut k: usize = 0;
    while k < DELTA_HEADER_BYTES
        invariant
            k <= DELTA_HEADER_BYTES,
            out@ =~= Seq::new(k as nat, |i: int| 0u8),
        decreases DELTA_HEADER_BYTES - k,
    {
        out.push(0u8);
        k = k + 1;
    }
    let ghost head = out@;
    let mut i: usize = 0;
    while i < content.len()
        invariant
            i <= content@.len(),
            head == Seq::new(DELTA_HEADER_BYTES as nat, |i: int| 0u8),
            out@ =~= head + bytes_of(content@.subrange(0, i as int)),
        decreases content.len() - i,
    {
        out.push(content[i].ch);
        out.push(content[i].style);
        i = i + 1;
        assert(out@ =~= head + bytes_of(content@.subrange(0, i as int)));
    }
    assert(content@.subrange(0, i as int) =~= content@);
    out
}

/// Reading back an exported document gives its body delta.
pub proof fn lemma_export_round_trip(content: Seq<Glyph>)
    ensures
        payload_well_formed(export_bytes(content)),
        payload_delta(export_bytes(content)) == (DeltaView {
            base_len: 0,
            index: 0,
            delete: 0,
            insert: content,
        }),
{
    let b = export_bytes(content);
    assert(b.subrange(DELTA_HEADER_BYTES as int, b.len() as int) =~= bytes_of(content));
    assert(cells_of(bytes_of(content)) =~= content);
}

} // verus!

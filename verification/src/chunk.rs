use vstd::prelude::*;

use crate::be_bytes::{
    lemma_u32_be_bytes_roundtrip, spec_u32_from_be_bytes, spec_u32_to_be_bytes, u32_from_be_bytes,
    u32_to_be_bytes,
};
use crate::chunk_type::{is_valid_tag, ChunkType};
use crate::crc32::{checksum, spec_checksum};
use crate::errors::ChunkError;
use vstd::slice::slice_to_vec;
use vstd::utf8::{decode_utf8, valid_utf8};

verus! {

/// The mathematical content of a chunk: its four type-tag bytes and its
/// payload bytes. The length field and the CRC of a well-formed chunk
/// are functions of these two, so they do not appear here.
#[verifier::ext_equal]
pub struct ChunkModel {
    pub type_bytes: Seq<u8>,
    pub data: Seq<u8>,
}

/// The on-wire record for a model: 4-byte big-endian payload length,
/// the 4 type bytes, the payload, and the 4-byte big-endian CRC-32 of
/// type and payload.
pub open spec fn spec_serialize(m: ChunkModel) -> Seq<u8> {
    spec_u32_to_be_bytes(m.data.len() as u32) + m.type_bytes + m.data + spec_u32_to_be_bytes(
        spec_checksum(m.type_bytes, m.data),
    )
}

/// What parsing a byte buffer yields, field by field in record order:
/// the length, then the tag (rejected if invalid), then the payload,
/// then the stored CRC (rejected if it disagrees with the recomputed
/// one). Trailing bytes beyond the record are ignored.
pub open spec fn spec_parse(buf: Seq<u8>) -> Result<ChunkModel, ChunkError> {
    if buf.len() < 8 {
        Err(ChunkError::Truncated)
    } else {
        let l = spec_u32_from_be_bytes(buf.subrange(0, 4)) as int;
        let tb = buf.subrange(4, 8);
        if !is_valid_tag(tb) {
            Err(ChunkError::InvalidTag)
        } else if buf.len() < 12 + l {
            Err(ChunkError::Truncated)
        } else {
            let data = buf.subrange(8, 8 + l);
            let stored = buf.subrange(8 + l, 12 + l);
            if stored != spec_u32_to_be_bytes(spec_checksum(tb, data)) {
                Err(ChunkError::CrcMismatch)
            } else {
                Ok(ChunkModel { type_bytes: tb, data })
            }
        }
    }
}

/// One length-prefixed, type-tagged, checksummed record.
///
/// The length field and the CRC trailer are stored literally, as they
/// stand on the wire; [`Chunk::well_formed`] ties both to the payload,
/// so no chunk with a mismatched CRC is ever observable.
#[derive(Debug, Clone)]
pub struct Chunk {
    data_length: [u8; 4],
    chunk_type: ChunkType,
    data: Vec<u8>,
    crc: [u8; 4],
}

impl View for Chunk {
    type V = ChunkModel;

    closed spec fn view(&self) -> ChunkModel {
        ChunkModel { type_bytes: self.chunk_type@, data: self.data@ }
    }
}

impl Chunk {
    /// The internal invariant: the stored length field is the big-endian
    /// payload length, and the stored CRC is the big-endian CRC-32 of
    /// type and payload. Constructors establish it; methods keep it.
    pub closed spec fn well_formed(&self) -> bool {
        &&& self.data@.len() <= 0xffffffff
        &&& self.data_length@ == spec_u32_to_be_bytes(self.data@.len() as u32)
        &&& self.crc@ == spec_u32_to_be_bytes(spec_checksum(self.chunk_type@, self.data@))
    }

    /// Builds a chunk from a type tag and a payload, computing the CRC
    /// fresh. The payload length must fit the 4-byte length field.
    pub fn new(chunk_type: ChunkType, data: &[u8]) -> (r: Chunk)
        requires
            data@.len() <= 0xffffffff,
        ensures
            r.well_formed(),
            r@.type_bytes == chunk_type@,
            r@.data == data@,
    {
        let len: u32 = data.len() as u32;
        let crc_val = checksum(&chunk_type.bytes(), data);
        Chunk {
            data_length: u32_to_be_bytes(len),
            chunk_type,
            data: slice_to_vec(data),
            crc: u32_to_be_bytes(crc_val),
        }
    }

    /// The stored CRC, read back as a 32-bit value; by the invariant it
    /// equals the CRC-32 of type and payload.
    pub fn crc(&self) -> (r: u32)
        requires
            self.well_formed(),
        ensures
            r == spec_checksum(self@.type_bytes, self@.data),
    {
        let r = u32_from_be_bytes(self.crc[0], self.crc[1], self.crc[2], self.crc[3]);
        proof {
            assert(seq![self.crc@[0], self.crc@[1], self.crc@[2], self.crc@[3]] =~= self.crc@);
            lemma_u32_be_bytes_roundtrip(spec_checksum(self@.type_bytes, self@.data));
        }
        r
    }

    /// The payload length, recomputed from the stored payload rather
    /// than trusted from the stored length field.
    pub fn length(&self) -> (r: u32)
        requires
            self.well_formed(),
        ensures
            r as int == self@.data.len(),
    {
        self.data.len() as u32
    }

    /// The chunk's type tag.
    pub fn chunk_type(&self) -> (r: &ChunkType)
        ensures
            r@ == self@.type_bytes,
    {
        &self.chunk_type
    }

    /// The payload viewed as text; fails with [`ChunkError::NotUtf8`]
    /// exactly when the payload is not valid UTF-8.
    pub fn data_as_string(&self) -> (r: Result<String, ChunkError>)
        ensures
            match r {
                Ok(s) => valid_utf8(self@.data) && s@ == decode_utf8(self@.data),
                Err(e) => !valid_utf8(self@.data) && e == ChunkError::NotUtf8,
            },
    {
        match string_from_utf8(&self.data) {
            Some(s) => Ok(s),
            None => Err(ChunkError::NotUtf8),
        }
    }

    /// The CRC-32 of `chunk` followed by `data`, as the four big-endian
    /// trailer bytes of the record format.
    pub fn calculate_crc(chunk: &[u8], data: &[u8]) -> (r: [u8; 4])
        ensures
            r@ == spec_u32_to_be_bytes(spec_checksum(chunk@, data@)),
    {
        let table = crate::crc32::make_crc_table();
        let after_chunk = crate::crc32::update_crc(0xffffffffu32, chunk, &table);
        let after_data = crate::crc32::update_crc(after_chunk, data, &table);
        proof {
            crate::crc32::lemma_crc_update_concat(0xffffffffu32, chunk@, data@);
        }
        u32_to_be_bytes(after_data ^ 0xffffffffu32)
    }

    /// Serializes the record byte-for-byte: length, type, payload, CRC.
    pub fn as_bytes(&self) -> (r: Vec<u8>)
        requires
            self.well_formed(),
        ensures
            r@ == spec_serialize(self@),
    {
        let mut r: Vec<u8> = Vec::new();
        r.push(self.data_length[0]);
        r.push(self.data_length[1]);
        r.push(self.data_length[2]);
        r.push(self.data_length[3]);
        r.push(self.chunk_type.bytes()[0]);
        r.push(self.chunk_type.bytes()[1]);
        r.push(self.chunk_type.bytes()[2]);
        r.push(self.chunk_type.bytes()[3]);
        proof {
            assert(r@ =~= self.data_length@ + self.chunk_type@);
        }
        let ghost head = r@;
        let mut i: usize = 0;
        let len = self.data.len();
        while i < len
            invariant
                i <= len,
                len == self.data@.len(),
                r@ == head + self.data@.take(i as int),
            decreases len - i,
        {
            r.push(self.data[i]);
            proof {
                assert(self.data@.take(i + 1) =~= self.data@.take(i as int).push(
                    self.data@[i as int],
                ));
            }
            i = i + 1;
        }
        proof {
            assert(self.data@.take(len as int) =~= self.data@);
        }
        r.push(self.crc[0]);
        r.push(self.crc[1]);
        r.push(self.crc[2]);
        r.push(self.crc[3]);
        proof {
            assert(r@ =~= spec_serialize(self@));
        }
        r
    }

    /// Parses one record from the front of `value`, in record order;
    /// every failure is reported as the error [`spec_parse`] gives.
    /// Trailing bytes beyond the record are the caller's concern.
    pub fn parse(value: &[u8]) -> (r: Result<Chunk, ChunkError>)
        ensures
            match r {
                Ok(c) => c.well_formed() && spec_parse(value@) == Ok::<ChunkModel, ChunkError>(
                    c@,
                ),
                Err(e) => spec_parse(value@) == Err::<ChunkModel, ChunkError>(e),
            },
    {
        if value.len() < 8 {
            return Err(ChunkError::Truncated);
        }
        let l: u32 = u32_from_be_bytes(value[0], value[1], value[2], value[3]);
        proof {
            assert(seq![value@[0], value@[1], value@[2], value@[3]] =~= value@.subrange(0, 4));
        }
        let tag = [value[4], value[5], value[6], value[7]];
        proof {
            assert(tag@ =~= value@.subrange(4, 8));
        }
        let chunk_type = match ChunkType::parse(tag) {
            Ok(t) => t,
            Err(e) => {
                return Err(e);
            },
        };
        let l_usize: usize = l as usize;
        if value.len() - 8 < l_usize {
            return Err(ChunkError::Truncated);
        }
        if value.len() - 8 - l_usize < 4 {
            return Err(ChunkError::Truncated);
        }
        let end: usize = 8 + l_usize;
        let mut data: Vec<u8> = Vec::new();
        let mut i: usize = 8;
        while i < end
            invariant
                8 <= i <= end,
                end == 8 + l_usize,
                end + 4 <= value@.len(),
                data@ == value@.subrange(8, i as int),
            decreases end - i,
        {
            data.push(value[i]);
            proof {
                assert(value@.subrange(8, i + 1) =~= value@.subrange(8, i as int).push(
                    value@[i as int],
                ));
            }
            i = i + 1;
        }
        let computed = checksum(&chunk_type.bytes(), data.as_slice());
        let crc_bytes = u32_to_be_bytes(computed);
        let stored = [value[end], value[end + 1], value[end + 2], value[end + 3]];
        proof {
            assert(stored@ =~= value@.subrange(end as int, end + 4));
        }
        if stored[0] != crc_bytes[0] || stored[1] != crc_bytes[1] || stored[2] != crc_bytes[2]
            || stored[3] != crc_bytes[3] {
            return Err(ChunkError::CrcMismatch);
        }
        proof {
            assert(stored@ =~= crc_bytes@);
        }
        let c = Chunk { data_length: u32_to_be_bytes(l), chunk_type, data, crc: crc_bytes };
        proof {
            assert(spec_parse(value@) == Ok::<ChunkModel, ChunkError>(c@));
        }
        Ok(c)
    }
}

/// Relies on `String::from_utf8`: it succeeds exactly on valid UTF-8
/// input and then decodes those bytes to their character sequence.
#[verifier::external_body]
fn string_from_utf8(bytes: &Vec<u8>) -> (r: Option<String>)
    ensures
        r is Some <==> valid_utf8(bytes@),
        r is Some ==> r.unwrap()@ == decode_utf8(bytes@),
{
    String::from_utf8(bytes.clone()).ok()
}

/// Where each field of the serialized record lies in the byte stream.
proof fn lemma_serialize_layout(m: ChunkModel)
    requires
        m.type_bytes.len() == 4,
        m.data.len() <= 0xffffffff,
    ensures
        spec_serialize(m).len() == 12 + m.data.len(),
        spec_serialize(m).subrange(0, 4) =~= spec_u32_to_be_bytes(m.data.len() as u32),
        spec_u32_from_be_bytes(spec_serialize(m).subrange(0, 4)) as int == m.data.len(),
        spec_serialize(m).subrange(4, 8) =~= m.type_bytes,
        spec_serialize(m).subrange(8, 8 + m.data.len() as int) =~= m.data,
        spec_serialize(m).subrange(8 + m.data.len() as int, 12 + m.data.len() as int)
            =~= spec_u32_to_be_bytes(spec_checksum(m.type_bytes, m.data)),
{
    lemma_u32_be_bytes_roundtrip(m.data.len() as u32);
    assert(spec_serialize(m).subrange(0, 4) =~= spec_u32_to_be_bytes(m.data.len() as u32));
}

/// Round-trip law: serializing a chunk with a valid tag and parsing the
/// result gives back exactly the chunk — same type, same payload, and
/// hence the same CRC.
pub proof fn lemma_round_trip(m: ChunkModel)
    requires
        is_valid_tag(m.type_bytes),
        m.data.len() <= 0xffffffff,
    ensures
        spec_parse(spec_serialize(m)) == Ok::<ChunkModel, ChunkError>(m),
{
    lemma_serialize_layout(m);
    let buf = spec_serialize(m);
    let l = spec_u32_from_be_bytes(buf.subrange(0, 4)) as int;
    assert(ChunkModel { type_bytes: buf.subrange(4, 8), data: buf.subrange(8, 8 + l) } =~= m);
}

/// Tamper-detection law: flip any single byte of the CRC field of a
/// serialized chunk, and parsing the result reports a CRC mismatch.
pub proof fn lemma_crc_tamper_detected(m: ChunkModel, i: int, b: u8)
    requires
        is_valid_tag(m.type_bytes),
        m.data.len() <= 0xffffffff,
        8 + m.data.len() <= i < 12 + m.data.len(),
        b != spec_serialize(m)[i],
    ensures
        spec_parse(spec_serialize(m).update(i, b)) == Err::<ChunkModel, ChunkError>(
            ChunkError::CrcMismatch,
        ),
{
    lemma_serialize_layout(m);
    let buf = spec_serialize(m);
    let buf2 = buf.update(i, b);
    let l = m.data.len() as int;
    assert(buf2.subrange(0, 4) =~= buf.subrange(0, 4));
    assert(buf2.subrange(4, 8) =~= buf.subrange(4, 8));
    assert(buf2.subrange(8, 8 + l) =~= buf.subrange(8, 8 + l));
    let crcb = spec_u32_to_be_bytes(spec_checksum(m.type_bytes, m.data));
    let stored2 = buf2.subrange(8 + l, 12 + l);
    assert(stored2[i - (8 + l)] == b);
    assert(crcb[i - (8 + l)] == buf[i]);
    assert(stored2 != crcb);
}

/// Truncation law: a buffer shorter than the `4 + 4 + L + 4` bytes its
/// declared length `L` implies parses to `Truncated` — provided the tag,
/// where the buffer reaches it, is valid (an invalid tag is reported as
/// `InvalidTag` first).
pub proof fn lemma_truncated(buf: Seq<u8>)
    requires
        buf.len() >= 8 ==> is_valid_tag(buf.subrange(4, 8)),
        buf.len() < 12 + spec_u32_from_be_bytes(buf.subrange(0, 4)),
    ensures
        spec_parse(buf) == Err::<ChunkModel, ChunkError>(ChunkError::Truncated),
{
}

} // verus!

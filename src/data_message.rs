//! Application payload envelopes and their wire encoding: the kind's tag as
//! an integer (SYSTEM is 0, NODE is 1), then the payload as a byte sequence.
use crate::codec::{
    bytes_field, lemma_bytes_field_round_trip, lemma_pow256_values, lemma_varint_round_trip,
    parse_bytes_field, parse_varint, read_bytes_field, read_varint, varint, write_bytes_field,
    write_varint, CodecError,
};
use vstd::prelude::*;

verus! {

broadcast use vstd::seq_lib::group_seq_properties;

/// Who produced a payload: the system itself (a greeting) or a user.
#[allow(non_camel_case_types)]
#[derive(Debug, Clone, Copy, PartialEq, Eq, Structural)]
pub enum DataType {
    SYSTEM,
    NODE,
}

/// An application payload together with its kind.
#[derive(Debug, Clone, PartialEq)]
pub struct DataMessage {
    pub status_type: DataType,
    pub meta: Vec<u8>,
}

impl View for DataMessage {
    type V = (DataType, Seq<u8>);

    open spec fn view(&self) -> (DataType, Seq<u8>) {
        (self.status_type, self.meta@)
    }
}

pub open spec fn data_tag(t: DataType) -> nat {
    match t {
        DataType::SYSTEM => 0,
        DataType::NODE => 1,
    }
}

/// The wire encoding of a data message.
pub open spec fn encode_data(m: (DataType, Seq<u8>)) -> Seq<u8> {
    varint(data_tag(m.0)) + bytes_field(m.1)
}

/// What decoding `b` as a data message gives. Bytes after the message are
/// ignored.
pub open spec fn decode_data(b: Seq<u8>) -> Result<(DataType, Seq<u8>), CodecError> {
    match parse_varint(b, false) {
        Err(e) => Err(e),
        Ok((tag, used)) => if tag > 1 {
            Err(CodecError::UnexpectedVariant)
        } else {
            match parse_bytes_field(b.skip(used as int)) {
                Err(e) => Err(e),
                Ok((payload, _)) => Ok(
                    (if tag == 0 {
                        DataType::SYSTEM
                    } else {
                        DataType::NODE
                    }, payload),
                ),
            }
        },
    }
}

/// Decoding the encoding of a data message gives it back, field for field.
pub proof fn lemma_data_round_trip(m: (DataType, Seq<u8>))
    requires
        m.1.len() <= usize::MAX,
    ensures
        decode_data(encode_data(m)) == Ok::<(DataType, Seq<u8>), CodecError>(m),
{
    lemma_pow256_values();
    let b = encode_data(m);
    let v = varint(data_tag(m.0));
    lemma_varint_round_trip(data_tag(m.0), bytes_field(m.1), false);
    assert(b.skip(v.len() as int) =~= bytes_field(m.1) + Seq::<u8>::empty());
    lemma_bytes_field_round_trip(m.1, Seq::<u8>::empty());
}

impl DataMessage {
    pub fn new(status_type: DataType, meta: Vec<u8>) -> (r: Self)
        ensures
            r.status_type == status_type,
            r.meta@ == meta@,
    {
        Self { status_type, meta }
    }

    /// The wire encoding of this message.
    pub fn encode(self) -> (r: Vec<u8>)
        ensures
            r@ == encode_data(self@),
    {
        let mut out: Vec<u8> = Vec::new();
        let tag: u64 = match self.status_type {
            DataType::SYSTEM => 0,
            DataType::NODE => 1,
        };
        write_varint(&mut out, tag);
        write_bytes_field(&mut out, self.meta.as_slice());
        assert(out@ =~= encode_data(self@));
        out
    }

    /// Decodes a data message from `data`; bytes after it are ignored.
    pub fn decode(data: Vec<u8>) -> (r: Result<Self, CodecError>)
        ensures
            match r {
                Ok(m) => decode_data(data@) == Ok::<(DataType, Seq<u8>), CodecError>(m@),
                Err(e) => decode_data(data@) == Err::<(DataType, Seq<u8>), CodecError>(e),
            },
    {
        let (tag, pos) = match read_varint(&data, 0, false) {
            Ok(p) => p,
            Err(e) => {
                return Err(e);
            },
        };
        assert(data@.skip(0) =~= data@);
        let status_type = if tag == 0 {
            DataType::SYSTEM
        } else if tag == 1 {
            DataType::NODE
        } else {
            return Err(CodecError::UnexpectedVariant);
        };
        match read_bytes_field(&data, pos) {
            Err(e) => Err(e),
            Ok((meta, _)) => Ok(DataMessage { status_type, meta }),
        }
    }
}

} // verus!

//! Membership announcements and their wire encoding: the kind's tag as an
//! integer (JOIN is 0, LEAVE is 1), then `meta` as a text.
use crate::codec::{
    lemma_text_field_round_trip, lemma_varint_round_trip, parse_text_field, parse_varint,
    read_text_field, read_varint, text_field, varint, write_text_field, write_varint, CodecError,
    lemma_pow256_values,
};
use vstd::prelude::*;
use vstd::utf8::*;

verus! {

broadcast use vstd::seq_lib::group_seq_properties;

#[allow(non_camel_case_types)]
#[derive(Debug, Clone, Copy, PartialEq, Eq, Structural)]
pub enum StatusType {
    JOIN,
    LEAVE,
}

/// A membership announcement. `meta` is descriptive text only.
#[derive(Debug, Clone, PartialEq)]
pub struct StatusMessage {
    pub status_type: StatusType,
    pub meta: String,
}

impl View for StatusMessage {
    type V = (StatusType, Seq<char>);

    open spec fn view(&self) -> (StatusType, Seq<char>) {
        (self.status_type, self.meta@)
    }
}

pub open spec fn status_tag(t: StatusType) -> nat {
    match t {
        StatusType::JOIN => 0,
        StatusType::LEAVE => 1,
    }
}

/// The wire encoding of a status message.
pub open spec fn encode_status(m: (StatusType, Seq<char>)) -> Seq<u8> {
    varint(status_tag(m.0)) + text_field(m.1)
}

/// What decoding `b` as a status message gives. Bytes after the message are
/// ignored.
pub open spec fn decode_status(b: Seq<u8>) -> Result<(StatusType, Seq<char>), CodecError> {
    match parse_varint(b, false) {
        Err(e) => Err(e),
        Ok((tag, used)) => if tag > 1 {
            Err(CodecError::UnexpectedVariant)
        } else {
            match parse_text_field(b.skip(used as int)) {
                Err(e) => Err(e),
                Ok((meta, _)) => Ok(
                    (if tag == 0 {
                        StatusType::JOIN
                    } else {
                        StatusType::LEAVE
                    }, meta),
                ),
            }
        },
    }
}

/// Decoding the encoding of a status message gives it back, field for field.
pub proof fn lemma_status_round_trip(m: (StatusType, Seq<char>))
    requires
        encode_utf8(m.1).len() <= usize::MAX,
    ensures
        decode_status(encode_status(m)) == Ok::<(StatusType, Seq<char>), CodecError>(m),
{
    lemma_pow256_values();
    let b = encode_status(m);
    let v = varint(status_tag(m.0));
    lemma_varint_round_trip(status_tag(m.0), text_field(m.1), false);
    assert(b.skip(v.len() as int) =~= text_field(m.1) + Seq::<u8>::empty());
    lemma_text_field_round_trip(m.1, Seq::<u8>::empty());
}

impl StatusMessage {
    pub fn new(status_type: StatusType, meta: String) -> (r: Self)
        ensures
            r.status_type == status_type,
            r.meta@ == meta@,
    {
        Self { status_type, meta }
    }

    pub fn new_join(meta: String) -> (r: Self)
        ensures
            r.status_type == StatusType::JOIN,
            r.meta@ == meta@,
    {
        Self::new(StatusType::JOIN, meta)
    }

    pub fn new_leave(meta: String) -> (r: Self)
        ensures
            r.status_type == StatusType::LEAVE,
            r.meta@ == meta@,
    {
        Self::new(StatusType::LEAVE, meta)
    }

    /// The wire encoding of this message.
    pub fn encode(self) -> (r: Vec<u8>)
        ensures
            r@ == encode_status(self@),
            encode_utf8(self.meta@).len() <= usize::MAX,
    {
        let mut out: Vec<u8> = Vec::new();
        let tag: u64 = match self.status_type {
            StatusType::JOIN => 0,
            StatusType::LEAVE => 1,
        };
        write_varint(&mut out, tag);
        let bytes = self.meta.as_str().as_bytes();
        assert(bytes@.len() <= usize::MAX) by {
            assert(bytes.len() == bytes@.len());
        }
        write_text_field(&mut out, &self.meta);
        assert(out@ =~= encode_status(self@));
        out
    }

    /// Decodes a status message from `data`; bytes after it are ignored.
    pub fn decode(data: Vec<u8>) -> (r: Result<Self, CodecError>)
        ensures
            match r {
                Ok(m) => decode_status(data@) == Ok::<(StatusType, Seq<char>), CodecError>(m@),
                Err(e) => decode_status(data@) == Err::<(StatusType, Seq<char>), CodecError>(e),
            },
    {
        let (tag, pos) = match read_varint(&data, 0, false) {
            Ok(p) => p,
            Err(e) => {
                return Err(e);
            },
        };
        assert(data@.skip(0) =~= data@);
        let status_type = if tag == 0 {
            StatusType::JOIN
        } else if tag == 1 {
            StatusType::LEAVE
        } else {
            return Err(CodecError::UnexpectedVariant);
        };
        match read_text_field(&data, pos) {
            Err(e) => Err(e),
            Ok((meta, _)) => Ok(StatusMessage { status_type, meta }),
        }
    }
}

} // verus!

//! The byte-level building blocks of the wire format.
//!
//! Integers are written as variable-length integers in little-endian byte
//! order: a value up to 250 is a single byte; a larger one is a marker byte
//! (251 for two bytes, 252 for four, 253 for eight) followed by the value in
//! that many little-endian bytes, the narrowest that holds it (a wider form is
//! still read back as the same value). A byte sequence
//! is its length as such an integer followed by the bytes themselves; a text is
//! the byte sequence of its UTF-8 encoding.
use vstd::prelude::*;
use vstd::utf8::*;

verus! {

broadcast use vstd::seq_lib::group_seq_properties;

/// Why a byte sequence could not be decoded.
#[derive(Debug, Clone, Copy, PartialEq, Eq, Structural)]
pub enum CodecError {
    /// The bytes ended before the value did.
    UnexpectedEnd,
    /// An integer starts with a marker byte that is not allowed for its width.
    InvalidIntegerType,
    /// An enum tag names no variant.
    UnexpectedVariant,
    /// A text field is not well-formed UTF-8.
    InvalidUtf8,
}

pub const SINGLE_BYTE_MAX: u8 = 250;

pub const U16_MARKER: u8 = 251;

pub const U32_MARKER: u8 = 252;

pub const U64_MARKER: u8 = 253;

pub open spec fn pow256(k: nat) -> nat
    decreases k,
{
    if k == 0 {
        1
    } else {
        256 * pow256((k - 1) as nat)
    }
}

/// The `k` least significant bytes of `n`, least significant first.
pub open spec fn le_bytes(n: nat, k: nat) -> Seq<u8>
    decreases k,
{
    if k == 0 {
        Seq::empty()
    } else {
        seq![(n % 256) as u8] + le_bytes(n / 256, (k - 1) as nat)
    }
}

/// The number whose little-endian bytes are `s`.
pub open spec fn le_value(s: Seq<u8>) -> nat
    decreases s.len(),
{
    if s.len() == 0 {
        0
    } else {
        s[0] as nat + 256 * le_value(s.drop_first())
    }
}

/// The variable-length encoding of `n`.
pub open spec fn varint(n: nat) -> Seq<u8> {
    if n <= SINGLE_BYTE_MAX {
        seq![n as u8]
    } else if n < pow256(2) {
        seq![U16_MARKER] + le_bytes(n, 2)
    } else if n < pow256(4) {
        seq![U32_MARKER] + le_bytes(n, 4)
    } else {
        seq![U64_MARKER] + le_bytes(n, 8)
    }
}

/// Reads a variable-length integer at the start of `b`: the value and the
/// number of bytes it took. An eight-byte value is allowed only when `wide`.
pub open spec fn parse_varint(b: Seq<u8>, wide: bool) -> Result<(nat, nat), CodecError> {
    if b.len() == 0 {
        Err(CodecError::UnexpectedEnd)
    } else if b[0] <= SINGLE_BYTE_MAX {
        Ok((b[0] as nat, 1))
    } else if b[0] == U16_MARKER {
        if b.len() < 3 {
            Err(CodecError::UnexpectedEnd)
        } else {
            Ok((le_value(b.subrange(1, 3)), 3))
        }
    } else if b[0] == U32_MARKER {
        if b.len() < 5 {
            Err(CodecError::UnexpectedEnd)
        } else {
            Ok((le_value(b.subrange(1, 5)), 5))
        }
    } else if b[0] == U64_MARKER && wide {
        if b.len() < 9 {
            Err(CodecError::UnexpectedEnd)
        } else {
            Ok((le_value(b.subrange(1, 9)), 9))
        }
    } else {
        Err(CodecError::InvalidIntegerType)
    }
}

/// The encoding of a byte sequence: its length, then the bytes.
pub open spec fn bytes_field(s: Seq<u8>) -> Seq<u8> {
    varint(s.len()) + s
}

/// Reads a byte sequence at the start of `b`: the bytes and the number of
/// bytes the field took.
pub open spec fn parse_bytes_field(b: Seq<u8>) -> Result<(Seq<u8>, nat), CodecError> {
    match parse_varint(b, true) {
        Err(e) => Err(e),
        Ok((len, used)) => if used + len > b.len() {
            Err(CodecError::UnexpectedEnd)
        } else {
            Ok((b.subrange(used as int, (used + len) as int), used + len))
        },
    }
}

/// The encoding of a text: the byte sequence of its UTF-8 encoding.
pub open spec fn text_field(s: Seq<char>) -> Seq<u8> {
    bytes_field(encode_utf8(s))
}

/// Reads a text at the start of `b`: the text and the number of bytes the
/// field took.
pub open spec fn parse_text_field(b: Seq<u8>) -> Result<(Seq<char>, nat), CodecError> {
    match parse_bytes_field(b) {
        Err(e) => Err(e),
        Ok((bytes, used)) => if valid_utf8(bytes) {
            Ok((decode_utf8(bytes), used))
        } else {
            Err(CodecError::InvalidUtf8)
        },
    }
}

pub proof fn lemma_le_bytes_len(n: nat, k: nat)
    ensures
        le_bytes(n, k).len() == k,
    decreases k,
{
    if k > 0 {
        lemma_le_bytes_len(n / 256, (k - 1) as nat);
    }
}

pub proof fn lemma_le_value_bound(s: Seq<u8>)
    ensures
        le_value(s) < pow256(s.len()),
    decreases s.len(),
{
    if s.len() > 0 {
        let rest = s.drop_first();
        lemma_le_value_bound(rest);
        let v = le_value(rest);
        let p = pow256(rest.len());
        assert(s[0] as nat + 256 * v < 256 * p) by (nonlinear_arith)
            requires
                s[0] < 256,
                v < p,
        ;
    }
}

pub proof fn lemma_le_round_trip(n: nat, k: nat)
    requires
        n < pow256(k),
    ensures
        le_value(le_bytes(n, k)) == n,
    decreases k,
{
    if k > 0 {
        let p = pow256((k - 1) as nat);
        assert(n / 256 < p) by (nonlinear_arith)
            requires
                n < 256 * p,
        ;
        lemma_le_round_trip(n / 256, (k - 1) as nat);
        assert(le_bytes(n, k).drop_first() =~= le_bytes(n / 256, (k - 1) as nat));
        assert(n == n % 256 + 256 * (n / 256)) by (nonlinear_arith);
    }
}

pub proof fn lemma_pow256_values()
    ensures
        pow256(2) == 0x1_0000,
        pow256(4) == 0x1_0000_0000,
        pow256(8) == 0x1_0000_0000_0000_0000,
{
    reveal_with_fuel(pow256, 9);
}

/// Reading back the encoding of `n` yields `n`, whatever follows it.
pub proof fn lemma_varint_round_trip(n: nat, rest: Seq<u8>, wide: bool)
    requires
        n < pow256(8),
        wide || n < pow256(4),
    ensures
        parse_varint(varint(n) + rest, wide) == Ok::<(nat, nat), CodecError>(
            (n, varint(n).len()),
        ),
{
    lemma_pow256_values();
    let b = varint(n) + rest;
    if n <= SINGLE_BYTE_MAX {
    } else if n < pow256(2) {
        lemma_le_bytes_len(n, 2);
        lemma_le_round_trip(n, 2);
        assert(b.subrange(1, 3) =~= le_bytes(n, 2));
    } else if n < pow256(4) {
        lemma_le_bytes_len(n, 4);
        lemma_le_round_trip(n, 4);
        assert(b.subrange(1, 5) =~= le_bytes(n, 4));
    } else {
        lemma_le_bytes_len(n, 8);
        lemma_le_round_trip(n, 8);
        assert(b.subrange(1, 9) =~= le_bytes(n, 8));
    }
}

/// Reading back the encoding of a byte sequence yields it, whatever follows.
pub proof fn lemma_bytes_field_round_trip(s: Seq<u8>, rest: Seq<u8>)
    requires
        s.len() < pow256(8),
    ensures
        parse_bytes_field(bytes_field(s) + rest) == Ok::<(Seq<u8>, nat), CodecError>(
            (s, bytes_field(s).len()),
        ),
{
    let b = bytes_field(s) + rest;
    let v = varint(s.len());
    assert(b =~= v + (s + rest));
    lemma_varint_round_trip(s.len(), s + rest, true);
    assert(b.subrange(v.len() as int, (v.len() + s.len()) as int) =~= s);
}

/// Reading back the encoding of a text yields it, whatever follows.
pub proof fn lemma_text_field_round_trip(s: Seq<char>, rest: Seq<u8>)
    requires
        encode_utf8(s).len() < pow256(8),
    ensures
        parse_text_field(text_field(s) + rest) == Ok::<(Seq<char>, nat), CodecError>(
            (s, text_field(s).len()),
        ),
{
    lemma_bytes_field_round_trip(encode_utf8(s), rest);
    encode_utf8_valid_utf8(s);
    encode_utf8_decode_utf8(s);
}

/// Appends the `k` least significant bytes of `n`, least significant first.
fn write_le(out: &mut Vec<u8>, n: u64, k: usize)
    ensures
        final(out)@ == old(out)@ + le_bytes(n as nat, k as nat),
{
    let mut cur: u64 = n;
    let mut i: usize = 0;
    while i < k
        invariant
            0 <= i <= k,
            old(out)@ + le_bytes(n as nat, k as nat) == out@ + le_bytes(cur as nat, (k - i) as nat),
        decreases k - i,
    {
        let ghost before = out@;
        out.push((cur % 256) as u8);
        assert(le_bytes(cur as nat, (k - i) as nat) =~= seq![(cur % 256) as u8] + le_bytes(
            (cur / 256) as nat,
            (k - i - 1) as nat,
        ));
        assert(before + le_bytes(cur as nat, (k - i) as nat) =~= out@ + le_bytes(
            (cur / 256) as nat,
            (k - i - 1) as nat,
        ));
        cur = cur / 256;
        i = i + 1;
    }
    assert(le_bytes(cur as nat, 0) =~= Seq::<u8>::empty());
    assert(out@ + le_bytes(cur as nat, 0) =~= out@);
}

/// Appends the variable-length encoding of `n`.
pub fn write_varint(out: &mut Vec<u8>, n: u64)
    ensures
        final(out)@ == old(out)@ + varint(n as nat),
{
    proof {
        lemma_pow256_values();
    }
    if n <= SINGLE_BYTE_MAX as u64 {
        out.push(n as u8);
        assert(out@ =~= old(out)@ + varint(n as nat));
    } else if n <= 0xffff {
        out.push(U16_MARKER);
        write_le(out, n, 2);
        assert(out@ =~= old(out)@ + varint(n as nat));
    } else if n <= 0xffff_ffff {
        out.push(U32_MARKER);
        write_le(out, n, 4);
        assert(out@ =~= old(out)@ + varint(n as nat));
    } else {
        out.push(U64_MARKER);
        write_le(out, n, 8);
        assert(out@ =~= old(out)@ + varint(n as nat));
    }
}

/// Appends the bytes of `s`.
pub fn push_all(out: &mut Vec<u8>, s: &[u8])
    ensures
        final(out)@ == old(out)@ + s@,
{
    let ghost start = out@;
    let mut i: usize = 0;
    while i < s.len()
        invariant
            0 <= i <= s@.len(),
            out@ == start + s@.subrange(0, i as int),
        decreases s@.len() - i,
    {
        out.push(s[i]);
        assert(out@ =~= start + s@.subrange(0, i + 1));
        i = i + 1;
    }
    assert(s@.subrange(0, s@.len() as int) =~= s@);
}

/// Appends the encoding of the byte sequence `s`.
pub fn write_bytes_field(out: &mut Vec<u8>, s: &[u8])
    ensures
        final(out)@ == old(out)@ + bytes_field(s@),
{
    write_varint(out, s.len() as u64);
    push_all(out, s);
    assert(out@ =~= old(out)@ + bytes_field(s@));
}

/// The number whose little-endian bytes are `b[pos..pos + k]`.
fn read_le(b: &Vec<u8>, pos: usize, k: usize) -> (r: u64)
    requires
        k <= 8,
        pos + k <= b@.len(),
    ensures
        r as nat == le_value(b@.subrange(pos as int, pos + k)),
{
    let ghost s = b@.subrange(pos as int, pos + k);
    let n = b.len();
    let mut v: u64 = 0;
    let mut i: usize = k;
    proof {
        assert(s.subrange(k as int, k as int) =~= Seq::<u8>::empty());
    }
    while i > 0
        invariant
            0 <= i <= k <= 8,
            pos + k <= b@.len(),
            n == b@.len(),
            s == b@.subrange(pos as int, pos + k),
            v as nat == le_value(s.subrange(i as int, k as int)),
        decreases i,
    {
        let ghost prev = s.subrange(i as int, k as int);
        let ghost next = s.subrange(i - 1, k as int);
        proof {
            assert(next.drop_first() =~= prev);
            lemma_le_value_bound(prev);
            let p = pow256(prev.len());
            assert(p <= pow256(7)) by {
                lemma_pow256_monotone(prev.len(), 7);
            }
            reveal_with_fuel(pow256, 8);
            assert(v * 256 + 255 < 0x1_0000_0000_0000_0000) by (nonlinear_arith)
                requires
                    v < p,
                    p <= 0x0100_0000_0000_0000,
            ;
        }
        i = i - 1;
        v = v * 256 + b[pos + i] as u64;
    }
    assert(s.subrange(0, k as int) =~= s);
    v
}

proof fn lemma_pow256_monotone(a: nat, b: nat)
    requires
        a <= b,
    ensures
        pow256(a) <= pow256(b),
    decreases b,
{
    if a < b {
        lemma_pow256_monotone(a, (b - 1) as nat);
    }
}

/// Reads a variable-length integer at `b[pos..]`: its value and the position
/// just after it.
pub fn read_varint(b: &Vec<u8>, pos: usize, wide: bool) -> (r: Result<(u64, usize), CodecError>)
    requires
        pos <= b@.len(),
    ensures
        match r {
            Ok((v, next)) => parse_varint(b@.skip(pos as int), wide) == Ok::<(nat, nat), CodecError>(
                (v as nat, (next - pos) as nat),
            ) && pos < next <= b@.len(),
            Err(e) => parse_varint(b@.skip(pos as int), wide) == Err::<(nat, nat), CodecError>(e),
        },
{
    let ghost t = b@.skip(pos as int);
    if pos >= b.len() {
        return Err(CodecError::UnexpectedEnd);
    }
    let first = b[pos];
    let avail = b.len() - pos;
    if first <= SINGLE_BYTE_MAX {
        Ok((first as u64, pos + 1))
    } else if first == U16_MARKER {
        if avail < 3 {
            Err(CodecError::UnexpectedEnd)
        } else {
            let v = read_le(b, pos + 1, 2);
            assert(t.subrange(1, 3) =~= b@.subrange(pos + 1, pos + 3));
            Ok((v, pos + 3))
        }
    } else if first == U32_MARKER {
        if avail < 5 {
            Err(CodecError::UnexpectedEnd)
        } else {
            let v = read_le(b, pos + 1, 4);
            assert(t.subrange(1, 5) =~= b@.subrange(pos + 1, pos + 5));
            Ok((v, pos + 5))
        }
    } else if first == U64_MARKER && wide {
        if avail < 9 {
            Err(CodecError::UnexpectedEnd)
        } else {
            let v = read_le(b, pos + 1, 8);
            assert(t.subrange(1, 9) =~= b@.subrange(pos + 1, pos + 9));
            Ok((v, pos + 9))
        }
    } else {
        Err(CodecError::InvalidIntegerType)
    }
}

/// Reads a byte sequence at `b[pos..]`: the bytes and the position just after
/// the field.
pub fn read_bytes_field(b: &Vec<u8>, pos: usize) -> (r: Result<(Vec<u8>, usize), CodecError>)
    requires
        pos <= b@.len(),
    ensures
        match r {
            Ok((bytes, next)) => parse_bytes_field(b@.skip(pos as int)) == Ok::<
                (Seq<u8>, nat),
                CodecError,
            >((bytes@, (next - pos) as nat)) && pos < next <= b@.len(),
            Err(e) => parse_bytes_field(b@.skip(pos as int)) == Err::<(Seq<u8>, nat), CodecError>(
                e,
            ),
        },
{
    let ghost t = b@.skip(pos as int);
    let (len, start) = match read_varint(b, pos, true) {
        Ok(p) => p,
        Err(e) => {
            return Err(e);
        },
    };
    let avail = b.len() - start;
    if len > avail as u64 {
        return Err(CodecError::UnexpectedEnd);
    }
    let len = len as usize;
    let n = b.len();
    let mut bytes: Vec<u8> = Vec::new();
    let mut i: usize = 0;
    while i < len
        invariant
            0 <= i <= len,
            start + len <= b@.len(),
            n == b@.len(),
            bytes@ == b@.subrange(start as int, start + i),
        decreases len - i,
    {
        bytes.push(b[start + i]);
        assert(bytes@ =~= b@.subrange(start as int, start + i + 1));
        i = i + 1;
    }
    assert(t.subrange((start - pos) as int, (start - pos) + len) =~= b@.subrange(
        start as int,
        start + len,
    ));
    Ok((bytes, start + len))
}

/// Relies on `String::from_utf8`: it accepts exactly the well-formed UTF-8
/// byte sequences, and yields the text they encode.
#[verifier::external_body]
fn string_from_utf8(bytes: Vec<u8>) -> (r: Option<String>)
    ensures
        r.is_some() == valid_utf8(bytes@),
        r matches Some(s) ==> s@ == decode_utf8(bytes@),
{
    String::from_utf8(bytes).ok()
}

/// Appends the encoding of the text `s`.
pub fn write_text_field(out: &mut Vec<u8>, s: &String)
    ensures
        final(out)@ == old(out)@ + text_field(s@),
{
    write_bytes_field(out, s.as_str().as_bytes());
}

/// Reads a text at `b[pos..]`: the text and the position just after the field.
pub fn read_text_field(b: &Vec<u8>, pos: usize) -> (r: Result<(String, usize), CodecError>)
    requires
        pos <= b@.len(),
    ensures
        match r {
            Ok((s, next)) => parse_text_field(b@.skip(pos as int)) == Ok::<
                (Seq<char>, nat),
                CodecError,
            >((s@, (next - pos) as nat)) && pos < next <= b@.len(),
            Err(e) => parse_text_field(b@.skip(pos as int)) == Err::<(Seq<char>, nat), CodecError>(
                e,
            ),
        },
{
    match read_bytes_field(b, pos) {
        Err(e) => Err(e),
        Ok((bytes, next)) => match string_from_utf8(bytes) {
            Some(s) => Ok((s, next)),
            None => Err(CodecError::InvalidUtf8),
        },
    }
}

/// The UTF-8 encoding of a concatenation is the concatenation of the
/// encodings.
pub proof fn lemma_encode_utf8_concat(a: Seq<char>, b: Seq<char>)
    ensures
        encode_utf8(a + b) == encode_utf8(a) + encode_utf8(b),
    decreases a.len(),
{
    if a.len() == 0 {
        assert(a + b =~= b);
        assert(encode_utf8(a) =~= Seq::<u8>::empty());
        assert(encode_utf8(a) + encode_utf8(b) =~= encode_utf8(b));
    } else {
        lemma_encode_utf8_concat(a.drop_first(), b);
        assert((a + b).drop_first() =~= a.drop_first() + b);
        assert((a + b)[0] == a[0]);
        assert(encode_utf8(a + b) =~= encode_utf8(a) + encode_utf8(b));
    }
}

/// The text `a` followed by the text `b`.
pub fn concat_text(a: &str, b: &str) -> (r: String)
    ensures
        r@ == a@ + b@,
{
    let mut bytes: Vec<u8> = Vec::new();
    push_all(&mut bytes, a.as_bytes());
    push_all(&mut bytes, b.as_bytes());
    proof {
        lemma_encode_utf8_concat(a@, b@);
        assert(bytes@ =~= encode_utf8(a@ + b@));
        encode_utf8_valid_utf8(a@ + b@);
        encode_utf8_decode_utf8(a@ + b@);
    }
    match string_from_utf8(bytes) {
        Some(s) => s,
        None => {
            proof {
                assert(false);
            }
            String::new()
        },
    }
}

} // verus!

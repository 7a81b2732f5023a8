//! Little-endian integers and length-prefixed strings as they travel on the wire.
use vstd::prelude::*;
use vstd::utf8::*;

verus! {

/// The two bytes of `v`, least significant first.
pub open spec fn u16_le(v: u16) -> Seq<u8> {
    seq![v as u8, (v >> 8u16) as u8]
}

/// The four bytes of `v`, least significant first.
pub open spec fn u32_le(v: u32) -> Seq<u8> {
    seq![v as u8, (v >> 8u32) as u8, (v >> 16u32) as u8, (v >> 24u32) as u8]
}

/// The eight bytes of `v`, least significant first.
pub open spec fn u64_le(v: u64) -> Seq<u8> {
    seq![
        v as u8, (v >> 8u64) as u8, (v >> 16u64) as u8, (v >> 24u64) as u8,
        (v >> 32u64) as u8, (v >> 40u64) as u8, (v >> 48u64) as u8, (v >> 56u64) as u8,
    ]
}

/// A signed 16-bit value in two's complement, least significant byte first.
pub open spec fn i16_le(v: i16) -> Seq<u8> {
    u16_le(v as u16)
}

/// A signed 32-bit value in two's complement, least significant byte first.
pub open spec fn i32_le(v: i32) -> Seq<u8> {
    u32_le(v as u32)
}

/// A signed 64-bit value in two's complement, least significant byte first.
pub open spec fn i64_le(v: i64) -> Seq<u8> {
    u64_le(v as u64)
}

/// The value of the first two bytes of `b`, read least significant first.
pub open spec fn u16_from_le(b: Seq<u8>) -> u16
    recommends
        b.len() >= 2,
{
    (b[0] as u16) | ((b[1] as u16) << 8u16)
}

/// The value of the first four bytes of `b`, read least significant first.
pub open spec fn u32_from_le(b: Seq<u8>) -> u32
    recommends
        b.len() >= 4,
{
    (b[0] as u32) | ((b[1] as u32) << 8u32) | ((b[2] as u32) << 16u32) | ((b[3] as u32) << 24u32)
}

/// The first two bytes of `b` read as a two's complement value.
pub open spec fn i16_from_le(b: Seq<u8>) -> i16
    recommends
        b.len() >= 2,
{
    u16_from_le(b) as i16
}

/// The first four bytes of `b` read as a two's complement value.
pub open spec fn i32_from_le(b: Seq<u8>) -> i32
    recommends
        b.len() >= 4,
{
    u32_from_le(b) as i32
}

/// Reading back two bytes written by `u16_le` gives the value written.
pub proof fn lemma_u16_le_roundtrip(v: u16)
    ensures
        u16_le(v).len() == 2,
        u16_from_le(u16_le(v)) == v,
{
    let b = u16_le(v);
    assert(b[0] == v as u8 && b[1] == (v >> 8u16) as u8);
    assert(((v as u8) as u16) | ((((v >> 8u16) as u8) as u16) << 8u16) == v) by (bit_vector);
}

/// Reading back four bytes written by `u32_le` gives the value written.
pub proof fn lemma_u32_le_roundtrip(v: u32)
    ensures
        u32_le(v).len() == 4,
        u32_from_le(u32_le(v)) == v,
{
    let b = u32_le(v);
    assert(b[0] == v as u8 && b[1] == (v >> 8u32) as u8 && b[2] == (v >> 16u32) as u8 && b[3] == (
    v >> 24u32) as u8);
    assert(((v as u8) as u32) | ((((v >> 8u32) as u8) as u32) << 8u32) | ((((v >> 16u32) as u8)
        as u32) << 16u32) | ((((v >> 24u32) as u8) as u32) << 24u32) == v) by (bit_vector);
}

/// Reading back a signed 32-bit value written by `i32_le` gives the value written.
pub proof fn lemma_i32_le_roundtrip(v: i32)
    ensures
        i32_le(v).len() == 4,
        i32_from_le(i32_le(v)) == v,
{
    lemma_u32_le_roundtrip(v as u32);
    assert(((v as u32) as i32) == v) by (bit_vector);
}

/// The value of the first eight bytes of `b`, read least significant first.
pub open spec fn u64_from_le(b: Seq<u8>) -> u64
    recommends
        b.len() >= 8,
{
    (b[0] as u64) | ((b[1] as u64) << 8u64) | ((b[2] as u64) << 16u64) | ((b[3] as u64) << 24u64)
        | ((b[4] as u64) << 32u64) | ((b[5] as u64) << 40u64) | ((b[6] as u64) << 48u64) | ((
    b[7] as u64) << 56u64)
}

/// The first eight bytes of `b` read as a two's complement value.
pub open spec fn i64_from_le(b: Seq<u8>) -> i64
    recommends
        b.len() >= 8,
{
    u64_from_le(b) as i64
}

/// The number that the bytes of `b` stand for, least significant first, each
/// worth 256 times the one before.
pub open spec fn le_value(b: Seq<u8>) -> nat
    decreases b.len(),
{
    if b.len() == 0 {
        0
    } else {
        b[0] as nat + 256 * le_value(b.drop_first())
    }
}

/// Reading back two bytes written by `i16_le` gives the value written.
pub proof fn lemma_i16_le_roundtrip(v: i16)
    ensures
        i16_le(v).len() == 2,
        i16_from_le(i16_le(v)) == v,
{
    lemma_u16_le_roundtrip(v as u16);
    assert(((v as u16) as i16) == v) by (bit_vector);
}

/// Reading back eight bytes written by `u64_le` gives the value written.
pub proof fn lemma_u64_le_roundtrip(v: u64)
    ensures
        u64_le(v).len() == 8,
        u64_from_le(u64_le(v)) == v,
{
    let b = u64_le(v);
    assert(b[0] == v as u8 && b[1] == (v >> 8u64) as u8 && b[2] == (v >> 16u64) as u8 && b[3] == (
    v >> 24u64) as u8 && b[4] == (v >> 32u64) as u8 && b[5] == (v >> 40u64) as u8 && b[6] == (v
        >> 48u64) as u8 && b[7] == (v >> 56u64) as u8);
    assert(((v as u8) as u64) | ((((v >> 8u64) as u8) as u64) << 8u64) | ((((v >> 16u64) as u8)
        as u64) << 16u64) | ((((v >> 24u64) as u8) as u64) << 24u64) | ((((v >> 32u64) as u8)
        as u64) << 32u64) | ((((v >> 40u64) as u8) as u64) << 40u64) | ((((v >> 48u64) as u8)
        as u64) << 48u64) | ((((v >> 56u64) as u8) as u64) << 56u64) == v) by (bit_vector);
}

/// Reading back a signed 64-bit value written by `i64_le` gives the value written.
pub proof fn lemma_i64_le_roundtrip(v: i64)
    ensures
        i64_le(v).len() == 8,
        i64_from_le(i64_le(v)) == v,
{
    lemma_u64_le_roundtrip(v as u64);
    assert(((v as u64) as i64) == v) by (bit_vector);
}

/// The little-endian encodings stand for the values encoded: the bytes, each
/// worth 256 times the one before, add up to the value, and for a signed value
/// to the value plus 2 to the power of the width when it is negative.
pub proof fn lemma_le_encodings_value(a: u16, b: u32, c: u64, x: i16, y: i32, z: i64)
    ensures
        le_value(u16_le(a)) == a,
        le_value(u32_le(b)) == b,
        le_value(u64_le(c)) == c,
        le_value(i16_le(x)) == if x >= 0 { x as int } else { x + 0x1_0000 },
        le_value(i32_le(y)) == if y >= 0 { y as int } else { y + 0x1_0000_0000 },
        le_value(i64_le(z)) == if z >= 0 { z as int } else { z + 0x1_0000_0000_0000_0000 },
{
    lemma_le_value_u16(a);
    lemma_le_value_u32(b);
    lemma_le_value_u64(c);
    lemma_le_value_u16(x as u16);
    lemma_le_value_u32(y as u32);
    lemma_le_value_u64(z as u64);
    assert((x as u16) as int == if x >= 0 { x as int } else { x + 0x1_0000 }) by (bit_vector);
    assert((y as u32) as int == if y >= 0 { y as int } else { y + 0x1_0000_0000 }) by (bit_vector);
    assert((z as u64) as int == if z >= 0 { z as int } else { z + 0x1_0000_0000_0000_0000 })
        by (bit_vector);
}

proof fn lemma_le_value_unfold(b: Seq<u8>)
    requires
        b.len() > 0,
    ensures
        le_value(b) == b[0] + 256 * le_value(b.drop_first()),
{
}

proof fn lemma_le_value_u16(v: u16)
    ensures
        le_value(u16_le(v)) == v,
{
    let b = u16_le(v);
    lemma_le_value_unfold(b);
    lemma_le_value_unfold(b.drop_first());
    assert(b.drop_first().drop_first().len() == 0);
    assert((v as u8) as int + 256 * (((v >> 8u16) as u8) as int) == v as int) by (bit_vector);
}

proof fn lemma_le_value_u32(v: u32)
    ensures
        le_value(u32_le(v)) == v,
{
    let b = u32_le(v);
    let b1 = b.drop_first();
    let b2 = b1.drop_first();
    let b3 = b2.drop_first();
    lemma_le_value_unfold(b);
    lemma_le_value_unfold(b1);
    lemma_le_value_unfold(b2);
    lemma_le_value_unfold(b3);
    assert(b3.drop_first().len() == 0);
    assert((v as u8) as int + 256 * (((v >> 8u32) as u8) as int + 256 * (((v >> 16u32) as u8) as int
        + 256 * (((v >> 24u32) as u8) as int))) == v as int) by (bit_vector);
}

proof fn lemma_le_value_u64(v: u64)
    ensures
        le_value(u64_le(v)) == v,
{
    let b = u64_le(v);
    let b1 = b.drop_first();
    let b2 = b1.drop_first();
    let b3 = b2.drop_first();
    let b4 = b3.drop_first();
    let b5 = b4.drop_first();
    let b6 = b5.drop_first();
    let b7 = b6.drop_first();
    lemma_le_value_unfold(b);
    lemma_le_value_unfold(b1);
    lemma_le_value_unfold(b2);
    lemma_le_value_unfold(b3);
    lemma_le_value_unfold(b4);
    lemma_le_value_unfold(b5);
    lemma_le_value_unfold(b6);
    lemma_le_value_unfold(b7);
    assert(b7.drop_first().len() == 0);
    assert((v as u8) as int + 256 * (((v >> 8u64) as u8) as int + 256 * (((v >> 16u64) as u8) as int
        + 256 * (((v >> 24u64) as u8) as int + 256 * (((v >> 32u64) as u8) as int + 256 * (((v
        >> 40u64) as u8) as int + 256 * (((v >> 48u64) as u8) as int + 256 * (((v >> 56u64) as u8)
        as int))))))) == v as int) by (bit_vector);
}

/// Appends `v` to `out`, least significant byte first.
pub fn put_u8(out: &mut Vec<u8>, v: u8)
    ensures
        final(out)@ == old(out)@ + seq![v],
{
    out.push(v);
    assert(out@ =~= old(out)@ + seq![v]);
}

/// Appends the two bytes of `v` to `out`, least significant first.
pub fn put_u16_le(out: &mut Vec<u8>, v: u16)
    ensures
        final(out)@ == old(out)@ + u16_le(v),
{
    out.push(v as u8);
    out.push((v >> 8u16) as u8);
    assert(out@ =~= old(out)@ + u16_le(v));
}

/// Appends the four bytes of `v` to `out`, least significant first.
pub fn put_u32_le(out: &mut Vec<u8>, v: u32)
    ensures
        final(out)@ == old(out)@ + u32_le(v),
{
    out.push(v as u8);
    out.push((v >> 8u32) as u8);
    out.push((v >> 16u32) as u8);
    out.push((v >> 24u32) as u8);
    assert(out@ =~= old(out)@ + u32_le(v));
}

/// Appends the eight bytes of `v` to `out`, least significant first.
pub fn put_u64_le(out: &mut Vec<u8>, v: u64)
    ensures
        final(out)@ == old(out)@ + u64_le(v),
{
    out.push(v as u8);
    out.push((v >> 8u64) as u8);
    out.push((v >> 16u64) as u8);
    out.push((v >> 24u64) as u8);
    out.push((v >> 32u64) as u8);
    out.push((v >> 40u64) as u8);
    out.push((v >> 48u64) as u8);
    out.push((v >> 56u64) as u8);
    assert(out@ =~= old(out)@ + u64_le(v));
}

/// Appends a signed 16-bit value to `out` in two's complement, least significant byte first.
pub fn put_i16_le(out: &mut Vec<u8>, v: i16)
    ensures
        final(out)@ == old(out)@ + i16_le(v),
{
    put_u16_le(out, v as u16);
}

/// Appends a signed 32-bit value to `out` in two's complement, least significant byte first.
pub fn put_i32_le(out: &mut Vec<u8>, v: i32)
    ensures
        final(out)@ == old(out)@ + i32_le(v),
{
    put_u32_le(out, v as u32);
}

/// Appends a signed 64-bit value to `out` in two's complement, least significant byte first.
pub fn put_i64_le(out: &mut Vec<u8>, v: i64)
    ensures
        final(out)@ == old(out)@ + i64_le(v),
{
    put_u64_le(out, v as u64);
}


/// Why a run of received bytes does not (yet) hold a value.
#[derive(Debug, Clone, Copy, PartialEq, Eq, Structural)]
pub enum DecodeError {
    /// The value is not complete: it ends only at byte `needed` of the input.
    Incomplete { needed: usize },
    /// A length-prefixed string whose first byte marks it as absent.
    NullString,
    /// A length-prefixed string whose content is not UTF-8.
    InvalidUtf8,
    /// An array whose element count is negative.
    NegativeLength { length: i16 },
    /// A packet type that no request type carries.
    UnknownRequestType { value: u16 },
}

/// Whether `s` is short enough to be sent as a length-prefixed string:
/// its UTF-8 encoding must be shorter than 127 bytes.
pub open spec fn length_string_fits(s: Seq<char>) -> bool {
    encode_utf8(s).len() < 127
}

/// A length-prefixed string on the wire: a presence byte 1, the byte length of
/// the UTF-8 encoding, then the encoding itself.
pub open spec fn length_string(s: Seq<char>) -> Seq<u8> {
    seq![1u8, encode_utf8(s).len() as u8] + encode_utf8(s)
}

/// What a length-prefixed string at the start of `b` decodes to, and how many
/// bytes it takes; any presence byte but 0 marks a present string.
pub open spec fn spec_decode_length_string(b: Seq<u8>) -> Result<(Seq<char>, nat), DecodeError> {
    if b.len() < 1 {
        Err(DecodeError::Incomplete { needed: 1 })
    } else if b[0] == 0 {
        Err(DecodeError::NullString)
    } else if b.len() < 2 {
        Err(DecodeError::Incomplete { needed: 2 })
    } else if b.len() < 2 + b[1] {
        Err(DecodeError::Incomplete { needed: (2 + b[1]) as usize })
    } else if valid_utf8(b.subrange(2, 2 + b[1])) {
        Ok((decode_utf8(b.subrange(2, 2 + b[1])), (2 + b[1]) as nat))
    } else {
        Err(DecodeError::InvalidUtf8)
    }
}

/// What an array of signed 32-bit values at the start of `b` decodes to, and how
/// many bytes it takes: a signed 16-bit count, then that many values.
pub open spec fn spec_decode_i32_array(b: Seq<u8>) -> Result<(Seq<i32>, nat), DecodeError> {
    if b.len() < 2 {
        Err(DecodeError::Incomplete { needed: 2 })
    } else if i16_from_le(b) < 0 {
        Err(DecodeError::NegativeLength { length: i16_from_le(b) })
    } else if b.len() < 2 + 4 * i16_from_le(b) {
        Err(DecodeError::Incomplete { needed: (2 + 4 * i16_from_le(b)) as usize })
    } else {
        Ok(
            (
                Seq::new(
                    i16_from_le(b) as nat,
                    |i: int| i32_from_le(b.subrange(2 + 4 * i, 6 + 4 * i)),
                ),
                (2 + 4 * i16_from_le(b)) as nat,
            ),
        )
    }
}

/// `String::from_utf8` of std, which builds a `String` from bytes that are UTF-8.
/// Its documentation promises an error exactly where the bytes are not UTF-8;
/// the contract claims that and that the string's characters are what the bytes
/// encode.
#[verifier::external_body]
fn string_from_utf8(bytes: Vec<u8>) -> (r: Option<String>)
    ensures
        r is Some <==> valid_utf8(bytes@),
        r matches Some(s) ==> s@ == decode_utf8(bytes@),
{
    String::from_utf8(bytes).ok()
}

/// The bytes `buf[from..to]` as a vector of their own.
fn copy_range(buf: &[u8], from: usize, to: usize) -> (v: Vec<u8>)
    requires
        from <= to <= buf@.len(),
    ensures
        v@ == buf@.subrange(from as int, to as int),
{
    let mut v: Vec<u8> = Vec::new();
    let mut k: usize = from;
    while k < to
        invariant
            from <= k <= to <= buf@.len(),
            v@ == buf@.subrange(from as int, k as int),
        decreases to - k,
    {
        v.push(buf[k]);
        k = k + 1;
        assert(v@ =~= buf@.subrange(from as int, k as int));
    }
    v
}

/// The two bytes of `buf` at `at`, read least significant first.
pub fn read_u16_le_at(buf: &[u8], at: usize) -> (v: u16)
    requires
        at + 2 <= buf@.len(),
    ensures
        v == u16_from_le(buf@.subrange(at as int, at + 2)),
{
    let b0 = buf[at];
    let b1 = buf[at + 1];
    (b0 as u16) | ((b1 as u16) << 8u16)
}

/// The four bytes of `buf` at `at`, read least significant first.
pub fn read_u32_le_at(buf: &[u8], at: usize) -> (v: u32)
    requires
        at + 4 <= buf@.len(),
    ensures
        v == u32_from_le(buf@.subrange(at as int, at + 4)),
{
    let b0 = buf[at];
    let b1 = buf[at + 1];
    let b2 = buf[at + 2];
    let b3 = buf[at + 3];
    (b0 as u32) | ((b1 as u32) << 8u32) | ((b2 as u32) << 16u32) | ((b3 as u32) << 24u32)
}

/// Whether `s` is short enough to be written as a length-prefixed string.
pub fn length_string_fits_wire(s: &str) -> (r: bool)
    ensures
        r == length_string_fits(s@),
{
    s.as_bytes().len() < 127
}

/// Appends `s` to `out` as a length-prefixed string.
pub fn put_length_string(out: &mut Vec<u8>, s: &str)
    requires
        length_string_fits(s@),
    ensures
        final(out)@ == old(out)@ + length_string(s@),
{
    let bytes = s.as_bytes();
    out.push(1u8);
    out.push(bytes.len() as u8);
    let ghost mid = out@;
    out.extend_from_slice(bytes);
    assert(out@ =~= mid + encode_utf8(s@));
    assert(out@ =~= old(out)@ + length_string(s@));
}

/// Decodes a length-prefixed string at the start of `buf`, with the number of
/// bytes it takes.
pub fn decode_length_string(buf: &[u8]) -> (r: Result<(String, usize), DecodeError>)
    ensures
        match r {
            Ok((s, n)) => spec_decode_length_string(buf@) == Ok::<_, DecodeError>((s@, n as nat)),
            Err(e) => spec_decode_length_string(buf@) == Err::<(Seq<char>, nat), _>(e),
        },
{
    if buf.len() < 1 {
        return Err(DecodeError::Incomplete { needed: 1 });
    }
    if buf[0] == 0 {
        return Err(DecodeError::NullString);
    }
    if buf.len() < 2 {
        return Err(DecodeError::Incomplete { needed: 2 });
    }
    let end: usize = 2 + buf[1] as usize;
    if buf.len() < end {
        return Err(DecodeError::Incomplete { needed: end });
    }
    let content = copy_range(buf, 2, end);
    match string_from_utf8(content) {
        Some(s) => Ok((s, end)),
        None => Err(DecodeError::InvalidUtf8),
    }
}

/// Decodes an array of signed 32-bit values at the start of `buf`, with the
/// number of bytes it takes.
pub fn decode_i32_array(buf: &[u8]) -> (r: Result<(Vec<i32>, usize), DecodeError>)
    ensures
        match r {
            Ok((v, n)) => spec_decode_i32_array(buf@) == Ok::<_, DecodeError>((v@, n as nat)),
            Err(e) => spec_decode_i32_array(buf@) == Err::<(Seq<i32>, nat), _>(e),
        },
{
    if buf.len() < 2 {
        return Err(DecodeError::Incomplete { needed: 2 });
    }
    let count = read_u16_le_at(buf, 0) as i16;
    assert(buf@.subrange(0, 2)[0] == buf@[0] && buf@.subrange(0, 2)[1] == buf@[1]);
    assert(count == i16_from_le(buf@));
    if count < 0 {
        return Err(DecodeError::NegativeLength { length: count });
    }
    let end: usize = 2 + 4 * (count as usize);
    if buf.len() < end {
        return Err(DecodeError::Incomplete { needed: end });
    }
    let ghost expected = Seq::new(
        count as nat,
        |i: int| i32_from_le(buf@.subrange(2 + 4 * i, 6 + 4 * i)),
    );
    let mut values: Vec<i32> = Vec::new();
    let mut i: usize = 0;
    while i < count as usize
        invariant
            0 <= count,
            i <= count as usize,
            end == 2 + 4 * (count as usize),
            end <= buf@.len(),
            expected.len() == count as nat,
            expected == Seq::new(
                count as nat,
                |i: int| i32_from_le(buf@.subrange(2 + 4 * i, 6 + 4 * i)),
            ),
            values@ == expected.take(i as int),
        decreases count as usize - i,
    {
        let at: usize = 2 + 4 * i;
        let w = read_u32_le_at(buf, at);
        values.push(w as i32);
        i = i + 1;
        assert(values@ =~= expected.take(i as int));
    }
    assert(values@ =~= expected);
    Ok((values, end))
}

/// A length-prefixed string written for `s` decodes back to `s` and takes exactly
/// the bytes written, whatever follows it.
pub proof fn lemma_length_string_roundtrip(s: Seq<char>, rest: Seq<u8>)
    requires
        length_string_fits(s),
    ensures
        spec_decode_length_string(length_string(s) + rest) == Ok::<_, DecodeError>(
            (s, length_string(s).len()),
        ),
{
    broadcast use encode_utf8_valid_utf8, encode_utf8_decode_utf8;

    let bytes = encode_utf8(s);
    let b = length_string(s) + rest;
    assert(b[0] == 1u8);
    assert(b[1] == bytes.len() as u8);
    assert(b[1] == bytes.len());
    assert(b.subrange(2, 2 + b[1]) =~= bytes);
}


/// The string decoder reads a stream safely: when it asks for more bytes it asks
/// past what it has; once it has decided (a value or a fault other than missing
/// bytes), bytes that arrive later change nothing; and a value never takes more
/// bytes than were there.
pub proof fn lemma_decode_length_string_stream(b: Seq<u8>, more: Seq<u8>)
    ensures
        spec_decode_length_string(b) matches Err(DecodeError::Incomplete { needed }) ==> needed
            > b.len(),
        spec_decode_length_string(b) matches Ok((v, n)) ==> n <= b.len(),
        !(spec_decode_length_string(b) is Err && spec_decode_length_string(b)->Err_0 is Incomplete)
            ==> spec_decode_length_string(b + more) == spec_decode_length_string(b),
{
    let c = b + more;
    if b.len() >= 2 && b.len() >= 2 + b[1] {
        assert(c[0] == b[0] && c[1] == b[1]);
        assert(c.subrange(2, 2 + c[1]) =~= b.subrange(2, 2 + b[1]));
    } else if b.len() >= 1 {
        assert(c[0] == b[0]);
    }
}

/// The array decoder reads a stream safely, in the same sense as the string
/// decoder.
pub proof fn lemma_decode_i32_array_stream(b: Seq<u8>, more: Seq<u8>)
    ensures
        spec_decode_i32_array(b) matches Err(DecodeError::Incomplete { needed }) ==> needed > b.len(),
        spec_decode_i32_array(b) matches Ok((v, n)) ==> n <= b.len(),
        !(spec_decode_i32_array(b) is Err && spec_decode_i32_array(b)->Err_0 is Incomplete)
            ==> spec_decode_i32_array(b + more) == spec_decode_i32_array(b),
{
    let c = b + more;
    if b.len() >= 2 {
        assert(c[0] == b[0] && c[1] == b[1]);
        assert(i16_from_le(c) == i16_from_le(b));
        let n = i16_from_le(b);
        if n >= 0 && b.len() >= 2 + 4 * n {
            let sb = Seq::new(n as nat, |i: int| i32_from_le(b.subrange(2 + 4 * i, 6 + 4 * i)));
            let sc = Seq::new(n as nat, |i: int| i32_from_le(c.subrange(2 + 4 * i, 6 + 4 * i)));
            assert forall|i: int| 0 <= i < n implies #[trigger] sb[i] == sc[i] by {
                assert(c.subrange(2 + 4 * i, 6 + 4 * i) =~= b.subrange(2 + 4 * i, 6 + 4 * i));
            }
            assert(sb =~= sc);
        }
    }
}

/// The signed 32-bit values of `v`, one after the other, each least
/// significant byte first.
pub open spec fn i32_seq_le(v: Seq<i32>) -> Seq<u8>
    decreases v.len(),
{
    if v.len() == 0 {
        Seq::empty()
    } else {
        i32_seq_le(v.drop_last()) + i32_le(v.last())
    }
}

/// The `i`-th four bytes of `i32_seq_le(v)` are the encoding of `v[i]`.
proof fn lemma_i32_seq_le_at(v: Seq<i32>, i: int)
    requires
        0 <= i < v.len(),
    ensures
        i32_seq_le(v).len() == 4 * v.len(),
        i32_seq_le(v).subrange(4 * i, 4 * i + 4) == i32_le(v[i]),
    decreases v.len(),
{
    lemma_i32_seq_le_len(v.drop_last());
    let prefix = i32_seq_le(v.drop_last());
    if i < v.len() - 1 {
        lemma_i32_seq_le_at(v.drop_last(), i);
        assert(i32_seq_le(v).subrange(4 * i, 4 * i + 4) =~= prefix.subrange(4 * i, 4 * i + 4));
    } else {
        assert(i32_seq_le(v).subrange(4 * i, 4 * i + 4) =~= i32_le(v.last()));
    }
}

proof fn lemma_i32_seq_le_len(v: Seq<i32>)
    ensures
        i32_seq_le(v).len() == 4 * v.len(),
    decreases v.len(),
{
    if v.len() > 0 {
        lemma_i32_seq_le_len(v.drop_last());
    }
}

/// An array written as its count and then its values reads back whole: every
/// value, in order, no more and no fewer, taking exactly the bytes written,
/// whatever follows.
pub proof fn lemma_i32_array_roundtrip(v: Seq<i32>, rest: Seq<u8>)
    requires
        v.len() <= i16::MAX,
    ensures
        spec_decode_i32_array(i16_le(v.len() as i16) + i32_seq_le(v) + rest) == Ok::<
            _,
            DecodeError,
        >((v, 2 + 4 * v.len())),
{
    let n = v.len() as i16;
    let b = i16_le(n) + i32_seq_le(v) + rest;
    lemma_i16_le_roundtrip(n);
    lemma_i32_seq_le_len(v);
    assert(b[0] == i16_le(n)[0] && b[1] == i16_le(n)[1]);
    assert(i16_from_le(b) == i16_from_le(i16_le(n)));
    assert(i16_from_le(b) == v.len());
    let got = Seq::new(v.len(), |i: int| i32_from_le(b.subrange(2 + 4 * i, 6 + 4 * i)));
    assert forall|i: int| 0 <= i < v.len() implies #[trigger] got[i] == v[i] by {
        lemma_i32_seq_le_at(v, i);
        assert(b.subrange(2 + 4 * i, 6 + 4 * i) =~= i32_seq_le(v).subrange(4 * i, 4 * i + 4));
        lemma_i32_le_roundtrip(v[i]);
    }
    assert(got =~= v);
}

/// An array whose count is negative is refused with that count, whatever follows.
pub proof fn lemma_i32_array_negative_count(n: i16, rest: Seq<u8>)
    requires
        n < 0,
    ensures
        spec_decode_i32_array(i16_le(n) + rest) == Err::<(Seq<i32>, nat), _>(
            DecodeError::NegativeLength { length: n },
        ),
{
    let b = i16_le(n) + rest;
    lemma_i16_le_roundtrip(n);
    assert(b[0] == i16_le(n)[0] && b[1] == i16_le(n)[1]);
    assert(i16_from_le(b) == i16_from_le(i16_le(n)));
}

/// A string with any presence byte but 0 and a length byte up to 255 reads back
/// whole, taking exactly its bytes, whatever follows; a presence byte 0 is an
/// absent string; content that is not UTF-8 is refused as such.
pub proof fn lemma_length_string_any_presence(p: u8, s: Seq<char>, c: Seq<u8>, rest: Seq<u8>)
    requires
        p != 0,
        encode_utf8(s).len() < 256,
        c.len() < 256,
    ensures
        spec_decode_length_string(seq![p, encode_utf8(s).len() as u8] + encode_utf8(s) + rest)
            == Ok::<_, DecodeError>((s, 2 + encode_utf8(s).len())),
        spec_decode_length_string(seq![0u8] + rest) == Err::<(Seq<char>, nat), _>(
            DecodeError::NullString,
        ),
        !valid_utf8(c) ==> spec_decode_length_string(seq![p, c.len() as u8] + c + rest) == Err::<
            (Seq<char>, nat),
            _,
        >(DecodeError::InvalidUtf8),
{
    broadcast use encode_utf8_valid_utf8, encode_utf8_decode_utf8;

    let bytes = encode_utf8(s);
    let b = seq![p, bytes.len() as u8] + bytes + rest;
    assert(b[0] == p && b[1] == bytes.len() as u8 && b[1] == bytes.len());
    assert(b.subrange(2, 2 + b[1]) =~= bytes);
    let z = seq![0u8] + rest;
    assert(z[0] == 0);
    let x = seq![p, c.len() as u8] + c + rest;
    assert(x[0] == p && x[1] == c.len());
    assert(x.subrange(2, 2 + x[1]) =~= c);
}

} // verus!

//! The wire format of an image: its pixel bytes with their length in eight
//! little-endian bytes, then width and height in four little-endian bytes each,
//! exactly as bincode lays out the record `{ image_data, width, height }`.
use vstd::prelude::*;

verus! {

/// An image of `width` by `height` RGBA pixels, 4 bytes each, row-major and
/// without padding.
pub struct EkcImage {
    pub image_data: Vec<u8>,
    pub width: u32,
    pub height: u32,
}

/// Why a byte buffer is not the encoding of an image.
#[derive(Clone, Copy, Debug, PartialEq, Eq, Structural)]
pub enum DecodeError {
    /// The buffer is not exactly one record: too short for its declared pixel
    /// count, or followed by extra bytes.
    Malformed,
    /// Width or height is zero.
    EmptyImage,
    /// The pixel byte count is not `width * height * 4`.
    SizeMismatch,
}

#[verifier::external_type_specification]
#[verifier::external_body]
pub struct ExBincodeErrorKind(bincode::ErrorKind);

/// `n` written in `k` little-endian bytes (the low `k` bytes of `n`).
pub open spec fn le_bytes(n: nat, k: nat) -> Seq<u8>
    decreases k,
{
    if k == 0 {
        Seq::empty()
    } else {
        seq![(n % 256) as u8] + le_bytes(n / 256, (k - 1) as nat)
    }
}

/// The number that little-endian bytes `s` spell.
pub open spec fn le_value(s: Seq<u8>) -> nat
    decreases s.len(),
{
    if s.len() == 0 {
        0
    } else {
        s[0] as nat + 256 * le_value(s.drop_first())
    }
}

/// `256` to the power `k`: the numbers that `k` bytes can hold.
pub open spec fn byte_capacity(k: nat) -> nat
    decreases k,
{
    if k == 0 {
        1
    } else {
        256 * byte_capacity((k - 1) as nat)
    }
}

/// The encoding of an image with these fields.
pub open spec fn wire_bytes(data: Seq<u8>, width: u32, height: u32) -> Seq<u8> {
    le_bytes(data.len(), 8) + data + le_bytes(width as nat, 4) + le_bytes(height as nat, 4)
}

/// Pixel byte count that the first eight bytes of `b` declare.
pub open spec fn declared_len(b: Seq<u8>) -> nat {
    le_value(b.subrange(0, 8))
}

/// `b` starts with a whole record: length, that many pixel bytes, width, height.
pub open spec fn holds_record(b: Seq<u8>) -> bool {
    b.len() >= 16 && b.len() >= 16 + declared_len(b)
}

/// `b` is exactly one record, with nothing after it.
pub open spec fn is_record(b: Seq<u8>) -> bool {
    holds_record(b) && b.len() == 16 + declared_len(b)
}

pub open spec fn record_data(b: Seq<u8>) -> Seq<u8> {
    b.subrange(8, 8 + declared_len(b) as int)
}

pub open spec fn record_width(b: Seq<u8>) -> nat {
    le_value(b.subrange(8 + declared_len(b) as int, 12 + declared_len(b) as int))
}

pub open spec fn record_height(b: Seq<u8>) -> nat {
    le_value(b.subrange(12 + declared_len(b) as int, 16 + declared_len(b) as int))
}

/// Pixel byte count of a `width` by `height` image.
pub open spec fn image_len(width: int, height: int) -> int {
    width * height * 4
}

/// The fields make an image that a GPU can process: both sides positive and
/// exactly 4 bytes per pixel.
pub open spec fn valid_fields(data: Seq<u8>, width: int, height: int) -> bool {
    width > 0 && height > 0 && data.len() == image_len(width, height)
}

/// What decoding `b` gives: the fields of the record, or the reason for refusal.
pub open spec fn decode_outcome(b: Seq<u8>) -> Result<(Seq<u8>, nat, nat), DecodeError> {
    if !is_record(b) {
        Err(DecodeError::Malformed)
    } else if record_width(b) == 0 || record_height(b) == 0 {
        Err(DecodeError::EmptyImage)
    } else if record_data(b).len() != image_len(record_width(b) as int, record_height(b) as int) {
        Err(DecodeError::SizeMismatch)
    } else {
        Ok((record_data(b), record_width(b), record_height(b)))
    }
}

/// Relies on bincode::serialize with its default options (fixed-width
/// little-endian integers): a byte sequence is written as its length in eight
/// bytes and then its bytes, a `u32` in four bytes, a tuple field after field;
/// for these types it returns `Ok`.
#[verifier::external_body]
fn bincode_serialize(data: &Vec<u8>, width: u32, height: u32) -> (r: Result<Vec<u8>, Box<bincode::ErrorKind>>)
    ensures
        r is Ok,
        r is Ok ==> r->Ok_0@ == wire_bytes(data@, width, height),
{
    bincode::serialize(&(data, width, height))
}

/// Relies on bincode::deserialize with its default options (fixed-width
/// little-endian integers, trailing bytes allowed): it reads the length in
/// eight bytes, that many bytes, then two `u32` of four bytes each, and fails
/// only where the buffer ends before them.
#[verifier::external_body]
fn bincode_deserialize(bytes: &[u8]) -> (r: Result<(Vec<u8>, u32, u32), Box<bincode::ErrorKind>>)
    ensures
        r is Ok <==> holds_record(bytes@),
        r is Ok ==> r->Ok_0.0@ == record_data(bytes@),
        r is Ok ==> r->Ok_0.1 as nat == record_width(bytes@),
        r is Ok ==> r->Ok_0.2 as nat == record_height(bytes@),
{
    bincode::deserialize::<(Vec<u8>, u32, u32)>(bytes)
}

/// `le_bytes` writes exactly `k` bytes.
pub proof fn lemma_le_bytes_len(n: nat, k: nat)
    ensures
        le_bytes(n, k).len() == k,
    decreases k,
{
    if k > 0 {
        lemma_le_bytes_len(n / 256, (k - 1) as nat);
    }
}

/// Reading back the `k` little-endian bytes of a number that fits in them gives
/// the number.
pub proof fn lemma_le_round_trip(n: nat, k: nat)
    requires
        n < byte_capacity(k),
    ensures
        le_value(le_bytes(n, k)) == n,
    decreases k,
{
    if k > 0 {
        let c = byte_capacity((k - 1) as nat);
        assert(n / 256 < c) by (nonlinear_arith)
            requires n < 256 * c;
        lemma_le_round_trip(n / 256, (k - 1) as nat);
        assert(le_bytes(n, k).drop_first() =~= le_bytes(n / 256, (k - 1) as nat));
    }
}

/// Four bytes hold every `u32`, eight bytes every `u64`.
pub proof fn lemma_byte_capacities()
    ensures
        byte_capacity(4) == 0x1_0000_0000,
        byte_capacity(8) == 0x1_0000_0000_0000_0000,
{
    assert(byte_capacity(0) == 1);
    assert(byte_capacity(1) == 0x100);
    assert(byte_capacity(2) == 0x1_0000);
    assert(byte_capacity(3) == 0x100_0000);
    assert(byte_capacity(4) == 0x1_0000_0000);
    assert(byte_capacity(5) == 0x100_0000_0000);
    assert(byte_capacity(6) == 0x1_0000_0000_0000);
    assert(byte_capacity(7) == 0x100_0000_0000_0000);
}

/// Decoding the encoding of a valid image gives back exactly its pixel bytes,
/// width and height.
pub proof fn lemma_codec_round_trip(data: Seq<u8>, width: u32, height: u32)
    requires
        valid_fields(data, width as int, height as int),
        data.len() <= u64::MAX,
    ensures
        decode_outcome(wire_bytes(data, width, height)) == Ok::<(Seq<u8>, nat, nat), DecodeError>(
            (data, width as nat, height as nat),
        ),
{
    let n = data.len();
    let a = le_bytes(n, 8);
    let w = le_bytes(width as nat, 4);
    let h = le_bytes(height as nat, 4);
    let b = wire_bytes(data, width, height);
    lemma_byte_capacities();
    lemma_le_bytes_len(n, 8);
    lemma_le_bytes_len(width as nat, 4);
    lemma_le_bytes_len(height as nat, 4);
    lemma_le_round_trip(n, 8);
    lemma_le_round_trip(width as nat, 4);
    lemma_le_round_trip(height as nat, 4);
    assert(b.subrange(0, 8) =~= a);
    assert(declared_len(b) == n);
    assert(b.subrange(8, 8 + n as int) =~= data);
    assert(b.subrange(8 + n as int, 12 + n as int) =~= w);
    assert(b.subrange(12 + n as int, 16 + n as int) =~= h);
}

impl EkcImage {
    /// The image is one that a GPU can process.
    pub open spec fn is_valid(&self) -> bool {
        valid_fields(self.image_data@, self.width as int, self.height as int)
    }

    /// The image in its wire format.
    pub fn encode(&self) -> (r: Vec<u8>)
        ensures
            r@ == wire_bytes(self.image_data@, self.width, self.height),
    {
        match bincode_serialize(&self.image_data, self.width, self.height) {
            Ok(bytes) => bytes,
            // Not taken: serialising bytes and two integers does not fail.
            Err(_) => Vec::new(),
        }
    }

    /// The image that `bytes` encode; refused unless `bytes` is exactly one
    /// record of a non-empty image with `width * height * 4` pixel bytes.
    pub fn decode(bytes: &[u8]) -> (r: Result<EkcImage, DecodeError>)
        ensures
            match (r, decode_outcome(bytes@)) {
                (Ok(img), Ok((data, w, h))) => img.image_data@ == data && img.width == w
                    && img.height == h,
                (Err(e), Err(f)) => e == f,
                _ => false,
            },
            r is Ok ==> r->Ok_0.is_valid(),
    {
        let (data, width, height) = match bincode_deserialize(bytes) {
            Ok(fields) => fields,
            Err(_) => {
                return Err(DecodeError::Malformed);
            },
        };
        let ghost b = bytes@;
        if bytes.len() - 16 != data.len() {
            return Err(DecodeError::Malformed);
        }
        if width == 0 || height == 0 {
            return Err(DecodeError::EmptyImage);
        }
        assert(width as u64 * height as u64 <= u32::MAX as u64 * u32::MAX as u64) by (nonlinear_arith)
            requires width <= u32::MAX, height <= u32::MAX;
        let pixels: u64 = width as u64 * height as u64;
        let expected: Option<u64> = pixels.checked_mul(4);
        match expected {
            Some(n) => {
                if data.len() as u64 != n {
                    return Err(DecodeError::SizeMismatch);
                }
            },
            None => {
                return Err(DecodeError::SizeMismatch);
            },
        }
        Ok(EkcImage { image_data: data, width, height })
    }
}

} // verus!

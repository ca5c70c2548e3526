//! Laying a payload out as a padded RGB pixel buffer behind a length header,
//! and reading it back.
use vstd::arithmetic::div_mod::{lemma_div_denominator, lemma_fundamental_div_mod};
use vstd::prelude::*;

use crate::error::PixelError;
use crate::geometry::{dimensions, grid_bytes, grid_height, grid_width, lemma_grid_fits};

verus! {

/// Largest payload length the header can express.
pub const MAX_PAYLOAD: u64 = 0xFFFF_FFFF;

/// The four big-endian bytes of `n`.
pub open spec fn be_bytes(n: nat) -> Seq<u8> {
    seq![
        (n / 0x100_0000 % 256) as u8,
        (n / 0x1_0000 % 256) as u8,
        (n / 0x100 % 256) as u8,
        (n % 256) as u8,
    ]
}

/// The number whose big-endian bytes are the first four of `b`.
pub open spec fn be_value(b: Seq<u8>) -> nat {
    b[0] as nat * 0x100_0000 + b[1] as nat * 0x1_0000 + b[2] as nat * 0x100 + b[3] as nat
}

/// `n` zero bytes.
pub open spec fn zeros(n: nat) -> Seq<u8> {
    Seq::new(n, |i: int| 0u8)
}

/// The pixel buffer that packs payload `p`: header, payload, then zero padding
/// up to the size of the chosen grid.
pub open spec fn packed_buffer(p: Seq<u8>) -> Seq<u8> {
    let len = p.len() + 4;
    be_bytes(p.len()) + p + zeros((grid_bytes(len) - len) as nat)
}

/// `b` holds a header and all the payload bytes it declares.
pub open spec fn holds_payload(b: Seq<u8>) -> bool {
    b.len() >= 4 && 4 + be_value(b) <= b.len()
}

/// The payload that the header of `b` declares.
pub open spec fn payload_of(b: Seq<u8>) -> Seq<u8> {
    b.subrange(4, 4 + be_value(b) as int)
}

/// `r` is what unpacking the pixel buffer `b` gives: the declared payload when
/// `b` holds it, and otherwise the error that says what is missing.
pub open spec fn unpacks_to(b: Seq<u8>, r: Result<Vec<u8>, PixelError>) -> bool {
    &&& b.len() < 4 ==> (r matches Err(PixelError::TruncatedHeader))
    &&& (b.len() >= 4 && !holds_payload(b)) ==> (r matches Err(PixelError::TruncatedPayload))
    &&& holds_payload(b) ==> (r matches Ok(p) && p@ == payload_of(b))
}

/// A payload laid out as RGB pixels of a `width` by `height` grid.
pub struct Packed {
    pub buffer: Vec<u8>,
    pub width: u32,
    pub height: u32,
}

/// Reading the big-endian bytes of a number that fits in four bytes gives it back.
pub proof fn lemma_be_round_trip(n: nat)
    requires
        n <= MAX_PAYLOAD,
    ensures
        be_value(be_bytes(n)) == n,
{
    let n1 = n / 256;
    let n2 = n1 / 256;
    let n3 = n2 / 256;
    lemma_fundamental_div_mod(n as int, 256);
    lemma_fundamental_div_mod(n1 as int, 256);
    lemma_fundamental_div_mod(n2 as int, 256);
    lemma_div_denominator(n as int, 256, 256);
    lemma_div_denominator(n1 as int, 256, 256);
    lemma_div_denominator(n as int, 256, 0x1_0000);
    assert(n2 == n / 0x1_0000);
    assert(n3 == n / 0x100_0000);
    assert(n3 < 256);
}

/// The first four bytes of a packed buffer state the payload's length.
pub proof fn lemma_header_fidelity(p: Seq<u8>)
    requires
        p.len() <= MAX_PAYLOAD,
    ensures
        packed_buffer(p).len() >= 4,
        be_value(packed_buffer(p).subrange(0, 4)) == p.len(),
{
    lemma_grid_fits(p.len() + 4);
    lemma_be_round_trip(p.len());
    assert(packed_buffer(p).subrange(0, 4) =~= be_bytes(p.len()));
}

/// Unpacking a packed buffer gives back the payload exactly.
pub proof fn lemma_unpack_pack(p: Seq<u8>)
    requires
        p.len() <= MAX_PAYLOAD,
    ensures
        holds_payload(packed_buffer(p)),
        payload_of(packed_buffer(p)) == p,
{
    let b = packed_buffer(p);
    lemma_grid_fits(p.len() + 4);
    lemma_be_round_trip(p.len());
    assert(be_value(b) == be_value(be_bytes(p.len())));
    assert(payload_of(b) =~= p);
}

/// Lays `payload` out as RGB pixels: a four-byte big-endian length header, the
/// payload, and zero bytes up to the size of a near-square grid.
pub fn pack(payload: &Vec<u8>) -> (r: Result<Packed, PixelError>)
    ensures
        payload@.len() > MAX_PAYLOAD <==> r is Err,
        r is Err ==> r matches Err(PixelError::PayloadTooLarge),
        r matches Ok(k) ==> {
            &&& k.buffer@ == packed_buffer(payload@)
            &&& k.width as nat == grid_width(payload@.len() + 4)
            &&& k.height as nat == grid_height(payload@.len() + 4)
        },
{
    let n = payload.len();
    if n as u64 > MAX_PAYLOAD {
        return Err(PixelError::PayloadTooLarge);
    }
    let size: u32 = n as u32;
    let len: u64 = size as u64 + 4;
    let (width, height) = dimensions(len);
    proof {
        lemma_grid_fits(len as nat);
        assert(width as u64 * height as u64 <= 0xFFFF_FFFF * 0xFFFF_FFFF) by (nonlinear_arith)
            requires width <= 0xFFFF_FFFFu32, height <= 0xFFFF_FFFFu32;
    }
    let total: u64 = width as u64 * height as u64 * 3;
    assert(total as nat == grid_bytes(len as nat)) by (nonlinear_arith)
        requires
            total == width as u64 * height as u64 * 3,
            width as nat == grid_width(len as nat),
            height as nat == grid_height(len as nat),
    ;
    let mut buffer: Vec<u8> = Vec::new();
    buffer.push((size / 0x100_0000 % 256) as u8);
    buffer.push((size / 0x1_0000 % 256) as u8);
    buffer.push((size / 0x100 % 256) as u8);
    buffer.push((size % 256) as u8);
    assert(buffer@ =~= be_bytes(n as nat));
    let mut i: usize = 0;
    while i < n
        invariant
            i <= n == payload@.len(),
            buffer@ == be_bytes(n as nat) + payload@.subrange(0, i as int),
        decreases n - i,
    {
        buffer.push(payload[i]);
        i = i + 1;
        assert(buffer@ =~= be_bytes(n as nat) + payload@.subrange(0, i as int));
    }
    assert(payload@.subrange(0, n as int) =~= payload@);
    let mut j: u64 = len;
    while j < total
        invariant
            len <= j <= total,
            n + 4 == len,
            len <= total,
            buffer@ == be_bytes(n as nat) + payload@ + zeros((j - len) as nat),
        decreases total - j,
    {
        buffer.push(0u8);
        j = j + 1;
        assert(buffer@ =~= be_bytes(n as nat) + payload@ + zeros((j - len) as nat));
    }
    Ok(Packed { buffer, width, height })
}

/// Reads the length header of a decoded pixel buffer and returns the payload it
/// declares; the padding after it is ignored.
pub fn unpack(buffer: &Vec<u8>) -> (r: Result<Vec<u8>, PixelError>)
    ensures
        unpacks_to(buffer@, r),
{
    if buffer.len() < 4 {
        return Err(PixelError::TruncatedHeader);
    }
    let size: u64 = buffer[0] as u64 * 0x100_0000 + buffer[1] as u64 * 0x1_0000
        + buffer[2] as u64 * 0x100 + buffer[3] as u64;
    assert(size as nat == be_value(buffer@));
    if size > (buffer.len() - 4) as u64 {
        return Err(PixelError::TruncatedPayload);
    }
    let end: usize = 4 + size as usize;
    let mut payload: Vec<u8> = Vec::new();
    let mut i: usize = 4;
    while i < end
        invariant
            4 <= i <= end <= buffer@.len(),
            end == 4 + be_value(buffer@),
            payload@ == buffer@.subrange(4, i as int),
        decreases end - i,
    {
        payload.push(buffer[i]);
        i = i + 1;
        assert(payload@ =~= buffer@.subrange(4, i as int));
    }
    Ok(payload)
}

} // verus!

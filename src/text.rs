//! The texts that responses are made of, and the hex and decimal renderings
//! of numbers inside them.

use vstd::prelude::*;

verus! {

/// The ASCII bytes of `"UPLOADING\0"`.
pub open spec fn text_uploading() -> Seq<u8> {
    seq![0x55u8, 0x50, 0x4C, 0x4F, 0x41, 0x44, 0x49, 0x4E, 0x47, 0x00]
}

pub(crate) fn text_uploading_bytes() -> (r: Vec<u8>)
    ensures
        r@ == text_uploading(),
{
    let r = vec![0x55u8, 0x50, 0x4C, 0x4F, 0x41, 0x44, 0x49, 0x4E, 0x47, 0x00];
    assert(r@ =~= text_uploading());
    r
}

/// The ASCII bytes of `"METADATAMODE"`.
pub open spec fn text_mode_ack() -> Seq<u8> {
    seq![0x4Du8, 0x45, 0x54, 0x41, 0x44, 0x41, 0x54, 0x41, 0x4D, 0x4F, 0x44, 0x45]
}

pub(crate) fn text_mode_ack_bytes() -> (r: Vec<u8>)
    ensures
        r@ == text_mode_ack(),
{
    let r = vec![0x4Du8, 0x45, 0x54, 0x41, 0x44, 0x41, 0x54, 0x41, 0x4D, 0x4F, 0x44, 0x45];
    assert(r@ =~= text_mode_ack());
    r
}

/// The ASCII bytes of `"METADATASEQN"`.
pub open spec fn text_sequence_ack() -> Seq<u8> {
    seq![0x4Du8, 0x45, 0x54, 0x41, 0x44, 0x41, 0x54, 0x41, 0x53, 0x45, 0x51, 0x4E]
}

pub(crate) fn text_sequence_ack_bytes() -> (r: Vec<u8>)
    ensures
        r@ == text_sequence_ack(),
{
    let r = vec![0x4Du8, 0x45, 0x54, 0x41, 0x44, 0x41, 0x54, 0x41, 0x53, 0x45, 0x51, 0x4E];
    assert(r@ =~= text_sequence_ack());
    r
}

/// The ASCII bytes of `"UPLOAD END\0"`.
pub open spec fn text_upload_end() -> Seq<u8> {
    seq![0x55u8, 0x50, 0x4C, 0x4F, 0x41, 0x44, 0x20, 0x45, 0x4E, 0x44, 0x00]
}

pub(crate) fn text_upload_end_bytes() -> (r: Vec<u8>)
    ensures
        r@ == text_upload_end(),
{
    let r = vec![0x55u8, 0x50, 0x4C, 0x4F, 0x41, 0x44, 0x20, 0x45, 0x4E, 0x44, 0x00];
    assert(r@ =~= text_upload_end());
    r
}

/// The ASCII bytes of `"IAMERR\0"`.
pub open spec fn text_error() -> Seq<u8> {
    seq![0x49u8, 0x41, 0x4D, 0x45, 0x52, 0x52, 0x00]
}

pub(crate) fn text_error_bytes() -> (r: Vec<u8>)
    ensures
        r@ == text_error(),
{
    let r = vec![0x49u8, 0x41, 0x4D, 0x45, 0x52, 0x52, 0x00];
    assert(r@ =~= text_error());
    r
}

/// The ASCII bytes of `"upload_"`.
pub open spec fn text_file_prefix() -> Seq<u8> {
    seq![0x75u8, 0x70, 0x6C, 0x6F, 0x61, 0x64, 0x5F]
}

pub(crate) fn text_file_prefix_bytes() -> (r: Vec<u8>)
    ensures
        r@ == text_file_prefix(),
{
    let r = vec![0x75u8, 0x70, 0x6C, 0x6F, 0x61, 0x64, 0x5F];
    assert(r@ =~= text_file_prefix());
    r
}

/// The ASCII bytes of `".bin"`.
pub open spec fn text_file_suffix() -> Seq<u8> {
    seq![0x2Eu8, 0x62, 0x69, 0x6E]
}

pub(crate) fn text_file_suffix_bytes() -> (r: Vec<u8>)
    ensures
        r@ == text_file_suffix(),
{
    let r = vec![0x2Eu8, 0x62, 0x69, 0x6E];
    assert(r@ =~= text_file_suffix());
    r
}

/// The ASCII bytes of `"Failed to parse packet"`.
pub open spec fn text_frame_failure() -> Seq<u8> {
    seq![0x46u8, 0x61, 0x69, 0x6C, 0x65, 0x64, 0x20, 0x74, 0x6F, 0x20, 0x70, 0x61, 0x72, 0x73, 0x65, 0x20, 0x70, 0x61, 0x63, 0x6B, 0x65, 0x74]
}

pub(crate) fn text_frame_failure_bytes() -> (r: Vec<u8>)
    ensures
        r@ == text_frame_failure(),
{
    let r = vec![0x46u8, 0x61, 0x69, 0x6C, 0x65, 0x64, 0x20, 0x74, 0x6F, 0x20, 0x70, 0x61, 0x72, 0x73, 0x65, 0x20, 0x70, 0x61, 0x63, 0x6B, 0x65, 0x74];
    assert(r@ =~= text_frame_failure());
    r
}

/// The ASCII bytes of `"Truncated RLE stream"`.
pub open spec fn text_rle_failure() -> Seq<u8> {
    seq![0x54u8, 0x72, 0x75, 0x6E, 0x63, 0x61, 0x74, 0x65, 0x64, 0x20, 0x52, 0x4C, 0x45, 0x20, 0x73, 0x74, 0x72, 0x65, 0x61, 0x6D]
}

pub(crate) fn text_rle_failure_bytes() -> (r: Vec<u8>)
    ensures
        r@ == text_rle_failure(),
{
    let r = vec![0x54u8, 0x72, 0x75, 0x6E, 0x63, 0x61, 0x74, 0x65, 0x64, 0x20, 0x52, 0x4C, 0x45, 0x20, 0x73, 0x74, 0x72, 0x65, 0x61, 0x6D];
    assert(r@ =~= text_rle_failure());
    r
}

/// The ASCII digit, upper case, of a value below sixteen.
pub open spec fn hex_digit(d: nat) -> u8 {
    if d < 10 {
        (0x30 + d) as u8
    } else {
        (0x41 + d - 10) as u8
    }
}

/// The upper-case hexadecimal digits of `n`, without leading zeros.
pub open spec fn hex_digits(n: nat) -> Seq<u8>
    decreases n,
{
    if n < 16 {
        seq![hex_digit(n)]
    } else {
        hex_digits(n / 16).push(hex_digit(n % 16))
    }
}

/// The upper-case hexadecimal digits of `n`, zero-padded to at least two.
pub open spec fn hex2(n: nat) -> Seq<u8> {
    if n < 16 {
        seq![0x30u8, hex_digit(n)]
    } else {
        hex_digits(n)
    }
}

/// The decimal digits of `n`, without leading zeros.
pub open spec fn decimal(n: nat) -> Seq<u8>
    decreases n,
{
    if n < 10 {
        seq![(0x30 + n) as u8]
    } else {
        decimal(n / 10).push((0x30 + n % 10) as u8)
    }
}

/// Appends `s` to `out`.
pub fn push_all(out: &mut Vec<u8>, s: &[u8])
    ensures
        final(out)@ == old(out)@ + s@,
{
    let mut i: usize = 0;
    while i < s.len()
        invariant
            i <= s.len(),
            out@ == old(out)@ + s@.take(i as int),
        decreases s.len() - i,
    {
        out.push(s[i]);
        i = i + 1;
        assert(out@ =~= old(out)@ + s@.take(i as int));
    }
    assert(s@.take(s.len() as int) =~= s@);
}

fn push_hex(out: &mut Vec<u8>, n: u64)
    ensures
        final(out)@ == old(out)@ + hex_digits(n as nat),
    decreases n,
{
    let ghost start = out@;
    if n >= 16 {
        push_hex(out, n / 16);
    }
    let d = (n % 16) as u8;
    let digit = if d < 10 { 0x30 + d } else { 0x41 + d - 10 };
    out.push(digit);
    assert(out@ =~= start + hex_digits(n as nat));
}

/// Appends the hex rendering of `n`, zero-padded to at least two digits.
pub fn push_hex2(out: &mut Vec<u8>, n: u64)
    ensures
        final(out)@ == old(out)@ + hex2(n as nat),
{
    let ghost start = out@;
    if n < 16 {
        out.push(0x30);
    }
    push_hex(out, n);
    assert(out@ =~= start + hex2(n as nat));
}

/// Appends the decimal rendering of `n`.
pub fn push_decimal(out: &mut Vec<u8>, n: u64)
    ensures
        final(out)@ == old(out)@ + decimal(n as nat),
    decreases n,
{
    let ghost start = out@;
    if n >= 10 {
        push_decimal(out, n / 10);
    }
    out.push(0x30 + (n % 10) as u8);
    assert(out@ =~= start + decimal(n as nat));
}

} // verus!

//! Frames and the packets they carry, and the decoder from one frame's bytes
//! to a packet.

use vstd::prelude::*;

verus! {

/// The fixed 16-bit constant that opens every frame.
pub const MAGIC: u16 = 0xC505;

/// The size of the header: magic number, total size, source id and command tag.
pub const HEADER_SIZE: usize = 10;

/// The largest frame that a connection accepts.
pub const MAX_FRAME_SIZE: usize = 508;

/// How DATA payloads are handled on a connection.
#[derive(Debug, Clone, Copy, PartialEq, Eq, Structural)]
pub enum Mode {
    /// The repacked payload is stored as it is.
    Block,
    /// The repacked payload is a run-length stream, expanded before it is stored.
    Compressed,
}

/// Why a buffer is not a frame.
#[derive(Debug, Clone, Copy, PartialEq, Eq, Structural)]
pub enum FrameError {
    /// Shorter than the header, or than the body its command needs.
    TooShort,
    /// The first two bytes are not the magic number.
    BadMagic,
    /// The declared total size differs from the length of the buffer.
    SizeMismatch,
    /// The command tag is none of the four known ones.
    UnknownCommand,
}

/// One decoded frame.
#[derive(Debug, PartialEq, Eq)]
pub enum Packet {
    /// An upload announced by a crawler.
    Upload { crawler_id: u16, file_path: String },
    /// A new transfer mode for the connection.
    ModeChange { mode: Mode },
    /// A sequence number, declared or acknowledged.
    SequenceAck { sequence: u16 },
    /// A chunk of an upload's content; an empty payload ends the transfer.
    DataChunk { upload_id: u16, sequence: u16, payload: Vec<u8> },
}

/// A packet with its text and bytes seen as sequences.
pub enum PacketModel {
    Upload { crawler_id: u16, file_path: Seq<char> },
    ModeChange { mode: Mode },
    SequenceAck { sequence: u16 },
    DataChunk { upload_id: u16, sequence: u16, payload: Seq<u8> },
}

impl View for Packet {
    type V = PacketModel;

    open spec fn view(&self) -> PacketModel {
        match self {
            Packet::Upload { crawler_id, file_path } => PacketModel::Upload {
                crawler_id: *crawler_id,
                file_path: file_path@,
            },
            Packet::ModeChange { mode } => PacketModel::ModeChange { mode: *mode },
            Packet::SequenceAck { sequence } => PacketModel::SequenceAck { sequence: *sequence },
            Packet::DataChunk { upload_id, sequence, payload } => PacketModel::DataChunk {
                upload_id: *upload_id,
                sequence: *sequence,
                payload: payload@,
            },
        }
    }
}

/// The text that lossy UTF-8 decoding makes of some bytes.
pub uninterp spec fn lossy_text(b: Seq<u8>) -> Seq<char>;

/// Relies on `String::from_utf8_lossy`: it decodes the bytes as UTF-8, putting a
/// replacement character for each invalid sequence, and never fails.
#[verifier::external_body]
fn decode_text(bytes: &[u8]) -> (r: String)
    ensures
        r@ == lossy_text(bytes@),
{
    String::from_utf8_lossy(bytes).into_owned()
}

/// The big-endian 16-bit number made of two bytes.
pub open spec fn be16(hi: u8, lo: u8) -> u16 {
    (hi as nat * 256 + lo as nat) as u16
}

/// The ASCII bytes of `UPLD`.
pub open spec fn tag_upload() -> Seq<u8> {
    seq![0x55u8, 0x50, 0x4C, 0x44]
}

/// The ASCII bytes of `MODE`.
pub open spec fn tag_mode() -> Seq<u8> {
    seq![0x4Du8, 0x4F, 0x44, 0x45]
}

/// The ASCII bytes of `SEQN`.
pub open spec fn tag_sequence() -> Seq<u8> {
    seq![0x53u8, 0x45, 0x51, 0x4E]
}

/// The ASCII bytes of `DATA`.
pub open spec fn tag_data() -> Seq<u8> {
    seq![0x44u8, 0x41, 0x54, 0x41]
}

/// The ASCII bytes of `block`.
pub open spec fn word_block() -> Seq<u8> {
    seq![0x62u8, 0x6C, 0x6F, 0x63, 0x6B]
}

/// The ASCII bytes of `compressed`.
pub open spec fn word_compressed() -> Seq<u8> {
    seq![0x63u8, 0x6F, 0x6D, 0x70, 0x72, 0x65, 0x73, 0x73, 0x65, 0x64]
}

/// The mode that a MODE body names: "block" and "compressed" name theirs, and
/// any other body falls back to `Block`.
pub open spec fn mode_named(body: Seq<u8>) -> Mode {
    if body == word_block() {
        Mode::Block
    } else if body == word_compressed() {
        Mode::Compressed
    } else {
        Mode::Block
    }
}

/// The total size that a frame of at least four bytes declares.
pub open spec fn declared_size(b: Seq<u8>) -> nat {
    be16(b[2], b[3]) as nat
}

/// What a buffer that holds exactly one frame decodes to.
pub open spec fn decoded(b: Seq<u8>) -> Result<PacketModel, FrameError> {
    if b.len() < 10 {
        Err(FrameError::TooShort)
    } else if be16(b[0], b[1]) != MAGIC {
        Err(FrameError::BadMagic)
    } else if declared_size(b) != b.len() {
        Err(FrameError::SizeMismatch)
    } else {
        let tag = b.subrange(6, 10);
        if tag == tag_upload() {
            Ok(PacketModel::Upload { crawler_id: be16(b[4], b[5]), file_path: lossy_text(b.skip(10)) })
        } else if tag == tag_mode() {
            Ok(PacketModel::ModeChange { mode: mode_named(b.skip(10)) })
        } else if tag == tag_sequence() {
            if b.len() < 12 {
                Err(FrameError::TooShort)
            } else {
                Ok(PacketModel::SequenceAck { sequence: be16(b[10], b[11]) })
            }
        } else if tag == tag_data() {
            if b.len() < 14 {
                Err(FrameError::TooShort)
            } else {
                Ok(
                    PacketModel::DataChunk {
                        upload_id: be16(b[10], b[11]),
                        sequence: be16(b[12], b[13]),
                        payload: b.skip(14),
                    },
                )
            }
        } else {
            Err(FrameError::UnknownCommand)
        }
    }
}

/// A decoding result with the packet seen through its view.
pub open spec fn result_model(r: Result<Packet, FrameError>) -> Result<PacketModel, FrameError> {
    match r {
        Ok(p) => Ok(p@),
        Err(e) => Err(e),
    }
}

fn read_be16(hi: u8, lo: u8) -> (r: u16)
    ensures
        r == be16(hi, lo),
{
    (hi as u16) * 256 + (lo as u16)
}

/// Whether `data` holds `word` from `at` on.
fn holds_at(data: &[u8], at: usize, word: &[u8]) -> (r: bool)
    requires
        at + word.len() <= data.len(),
    ensures
        r == (data@.subrange(at as int, at + word.len()) == word@),
{
    let mut i: usize = 0;
    while i < word.len()
        invariant
            i <= word.len(),
            at + word.len() <= data.len(),
            forall|k: int| 0 <= k < i ==> data@[at + k] == word@[k],
        decreases word.len() - i,
    {
        if data[at + i] != word[i] {
            assert(data@.subrange(at as int, at + word.len())[i as int] != word@[i as int]);
            return false;
        }
        i = i + 1;
    }
    assert(data@.subrange(at as int, at + word.len()) =~= word@);
    true
}

fn body_mode(data: &[u8]) -> (r: Mode)
    requires
        data.len() >= 10,
    ensures
        r == mode_named(data@.skip(10)),
{
    let block = vec![0x62u8, 0x6C, 0x6F, 0x63, 0x6B];
    let compressed = vec![0x63u8, 0x6F, 0x6D, 0x70, 0x72, 0x65, 0x73, 0x73, 0x65, 0x64];
    proof {
        assert(block@ =~= word_block());
        assert(compressed@ =~= word_compressed());
        assert(data@.subrange(10, data.len() as int) =~= data@.skip(10));
    }
    if data.len() == 10 + block.len() && holds_at(data, 10, block.as_slice()) {
        Mode::Block
    } else if data.len() == 10 + compressed.len() && holds_at(data, 10, compressed.as_slice()) {
        Mode::Compressed
    } else {
        Mode::Block
    }
}

fn tail(data: &[u8], from: usize) -> (r: Vec<u8>)
    requires
        from <= data.len(),
    ensures
        r@ == data@.skip(from as int),
{
    let mut out: Vec<u8> = Vec::new();
    let mut i: usize = from;
    while i < data.len()
        invariant
            from <= i <= data.len(),
            out@ == data@.subrange(from as int, i as int),
        decreases data.len() - i,
    {
        out.push(data[i]);
        i = i + 1;
        assert(out@ =~= data@.subrange(from as int, i as int));
    }
    assert(data@.subrange(from as int, data.len() as int) =~= data@.skip(from as int));
    out
}

/// Decodes the bytes of exactly one frame into a packet.
pub fn parse_packet(data: &[u8]) -> (r: Result<Packet, FrameError>)
    ensures
        result_model(r) == decoded(data@),
{
    if data.len() < HEADER_SIZE {
        return Err(FrameError::TooShort);
    }
    let magic_number = read_be16(data[0], data[1]);
    let total_packet_size = read_be16(data[2], data[3]);
    let crawler_id = read_be16(data[4], data[5]);
    if magic_number != MAGIC {
        return Err(FrameError::BadMagic);
    }
    if data.len() != total_packet_size as usize {
        return Err(FrameError::SizeMismatch);
    }
    let upload = vec![0x55u8, 0x50, 0x4C, 0x44];
    let mode = vec![0x4Du8, 0x4F, 0x44, 0x45];
    let sequence = vec![0x53u8, 0x45, 0x51, 0x4E];
    let chunk = vec![0x44u8, 0x41, 0x54, 0x41];
    proof {
        assert(upload@ =~= tag_upload());
        assert(mode@ =~= tag_mode());
        assert(sequence@ =~= tag_sequence());
        assert(chunk@ =~= tag_data());
    }
    if holds_at(data, 6, upload.as_slice()) {
        let file_path = decode_text(tail(data, HEADER_SIZE).as_slice());
        Ok(Packet::Upload { crawler_id, file_path })
    } else if holds_at(data, 6, mode.as_slice()) {
        Ok(Packet::ModeChange { mode: body_mode(data) })
    } else if holds_at(data, 6, sequence.as_slice()) {
        if data.len() < 12 {
            return Err(FrameError::TooShort);
        }
        Ok(Packet::SequenceAck { sequence: read_be16(data[10], data[11]) })
    } else if holds_at(data, 6, chunk.as_slice()) {
        if data.len() < 14 {
            return Err(FrameError::TooShort);
        }
        let upload_id = read_be16(data[10], data[11]);
        let sequence = read_be16(data[12], data[13]);
        Ok(Packet::DataChunk { upload_id, sequence, payload: tail(data, 14) })
    } else {
        Err(FrameError::UnknownCommand)
    }
}

/// A buffer whose declared total size differs from its length is never
/// decoded to a packet, whatever its length; with a full header and the magic
/// number in place, the error is `SizeMismatch`.
pub proof fn size_mismatch_rejected(b: Seq<u8>)
    requires
        b.len() >= 4,
        declared_size(b) != b.len(),
    ensures
        decoded(b) is Err,
        b.len() >= HEADER_SIZE && be16(b[0], b[1]) == MAGIC ==> decoded(b) == Err::<
            PacketModel,
            FrameError,
        >(FrameError::SizeMismatch),
{
}

} // verus!

//! The per-connection protocol engine: the transfer mode, what each packet
//! does to it, and the response and upload write that each frame calls for.

use vstd::prelude::*;
use crate::frame::{Mode, Packet, PacketModel, MAX_FRAME_SIZE, decoded, parse_packet};
use crate::text::{
    text_uploading, text_uploading_bytes, text_mode_ack, text_mode_ack_bytes, text_sequence_ack,
    text_sequence_ack_bytes, text_upload_end, text_upload_end_bytes, text_error, text_error_bytes,
    text_file_prefix, text_file_prefix_bytes, text_file_suffix, text_file_suffix_bytes,
    text_frame_failure, text_frame_failure_bytes, text_rle_failure, text_rle_failure_bytes, hex2,
    decimal, push_all, push_hex2, push_decimal,
};
use crate::transform::{repacked, rle_expand, remove_redundant_bits, decompress_rle, RleError};

verus! {

/// Bytes to append to an upload's store.
pub struct Append {
    pub upload_id: u16,
    /// The name of the store, fixed by the upload id.
    pub file_name: Vec<u8>,
    pub bytes: Vec<u8>,
}

/// What a frame calls for: bytes to append to an upload, and a response to send.
pub struct Outcome {
    pub append: Option<Append>,
    pub response: Option<Vec<u8>>,
}

/// An append, seen as the upload id, the store's name and the bytes.
pub open spec fn append_model(a: Option<Append>) -> Option<(u16, Seq<u8>, Seq<u8>)> {
    match a {
        Some(a) => Some((a.upload_id, a.file_name@, a.bytes@)),
        None => None,
    }
}

/// A response, seen as its bytes.
pub open spec fn response_model(r: Option<Vec<u8>>) -> Option<Seq<u8>> {
    match r {
        Some(v) => Some(v@),
        None => None,
    }
}

/// Transformed bytes, seen as a sequence; `None` for a stream cut short.
pub open spec fn bytes_model(r: Result<Vec<u8>, RleError>) -> Option<Seq<u8>> {
    match r {
        Ok(v) => Some(v@),
        Err(_) => None,
    }
}

/// The name of the store that holds upload `id`: `upload_<id>.bin`.
pub open spec fn upload_file_name(id: u16) -> Seq<u8> {
    text_file_prefix() + decimal(id as nat) + text_file_suffix()
}

/// The error response carrying `message`, its length plus four rendered in hex.
pub open spec fn error_text(message: Seq<u8>) -> Seq<u8> {
    text_error() + hex2(message.len() + 4) + message
}

/// The acknowledgement of an upload announced by `crawler_id`.
pub open spec fn upload_ack(crawler_id: u16) -> Seq<u8> {
    text_uploading() + hex2(crawler_id as nat)
}

/// The response that ends the transfer of upload `id`.
pub open spec fn upload_end(id: u16) -> Seq<u8> {
    text_upload_end() + upload_file_name(id)
}

/// The bytes a DATA payload stands for under `mode`: the repacked payload, and
/// under `Compressed` its run-length expansion; `None` where that stream is cut short.
pub open spec fn transformed(mode: Mode, payload: Seq<u8>) -> Option<Seq<u8>> {
    let r = repacked(payload);
    match mode {
        Mode::Block => Some(r),
        Mode::Compressed => if r.len() % 2 == 1 {
            None
        } else {
            Some(rle_expand(r))
        },
    }
}

/// The mode after `p`: a MODE packet sets it, any other keeps it.
pub open spec fn next_mode(mode: Mode, p: PacketModel) -> Mode {
    match p {
        PacketModel::ModeChange { mode: m } => m,
        _ => mode,
    }
}

/// What a DATA chunk for upload `upload_id` appends under `mode`: its
/// transformed payload, to the store named after the upload.
pub open spec fn data_append(mode: Mode, upload_id: u16, payload: Seq<u8>) -> Option<(u16, Seq<u8>, Seq<u8>)> {
    match transformed(mode, payload) {
        Some(bytes) => Some((upload_id, upload_file_name(upload_id), bytes)),
        None => None,
    }
}

/// The response to a DATA chunk: the end of the transfer when its payload is
/// empty, the error response when its run-length stream is cut short, and
/// otherwise none.
pub open spec fn data_response(mode: Mode, upload_id: u16, payload: Seq<u8>) -> Option<Seq<u8>> {
    if payload.len() == 0 {
        Some(upload_end(upload_id))
    } else if transformed(mode, payload) is None {
        Some(error_text(text_rle_failure()))
    } else {
        None
    }
}

/// What `p` appends to an upload under `mode`.
pub open spec fn append_for(mode: Mode, p: PacketModel) -> Option<(u16, Seq<u8>, Seq<u8>)> {
    match p {
        PacketModel::DataChunk { upload_id, payload, .. } => data_append(mode, upload_id, payload),
        _ => None,
    }
}

/// The response to `p` under `mode`.
pub open spec fn response_for(mode: Mode, p: PacketModel) -> Option<Seq<u8>> {
    match p {
        PacketModel::Upload { crawler_id, .. } => Some(upload_ack(crawler_id)),
        PacketModel::ModeChange { .. } => Some(text_mode_ack()),
        PacketModel::SequenceAck { .. } => Some(text_sequence_ack()),
        PacketModel::DataChunk { upload_id, payload, .. } => data_response(mode, upload_id, payload),
    }
}

/// The name of the store that holds upload `upload_id`.
pub fn upload_file_name_bytes(upload_id: u16) -> (r: Vec<u8>)
    ensures
        r@ == upload_file_name(upload_id),
{
    let mut r = text_file_prefix_bytes();
    push_decimal(&mut r, upload_id as u64);
    push_all(&mut r, text_file_suffix_bytes().as_slice());
    r
}

/// The error response that carries `message`.
pub fn error_response(message: &[u8]) -> (r: Vec<u8>)
    requires
        message.len() + 4 <= u64::MAX,
    ensures
        r@ == error_text(message@),
{
    let mut r = text_error_bytes();
    push_hex2(&mut r, message.len() as u64 + 4);
    push_all(&mut r, message);
    r
}

/// Runs a DATA payload through the transforms that `mode` calls for.
pub fn transform_payload(mode: Mode, payload: &[u8]) -> (r: Result<Vec<u8>, RleError>)
    requires
        payload.len() <= MAX_FRAME_SIZE,
    ensures
        bytes_model(r) == transformed(mode, payload@),
{
    let repacked_bytes = remove_redundant_bits(payload);
    proof {
        assert(repacked_bytes.len() <= payload.len()) by (nonlinear_arith)
            requires
                repacked_bytes.len() == (8 * payload.len()) / 9 + (if (8 * payload.len()) % 9 == 0 { 0int } else { 1int }),
        ;
    }
    match mode {
        Mode::Block => Ok(repacked_bytes),
        Mode::Compressed => decompress_rle(repacked_bytes.as_slice()),
    }
}

/// Handles one DATA chunk under `mode`: the bytes to append to the upload, and
/// the end-of-transfer response when the payload is empty.
pub fn handle_data_packet(mode: Mode, upload_id: u16, payload: &[u8]) -> (r: Outcome)
    requires
        payload.len() <= MAX_FRAME_SIZE,
    ensures
        append_model(r.append) == data_append(mode, upload_id, payload@),
        response_model(r.response) == data_response(mode, upload_id, payload@),
{
    match transform_payload(mode, payload) {
        Ok(bytes) => {
            let response = if payload.len() == 0 {
                let mut end = text_upload_end_bytes();
                push_all(&mut end, upload_file_name_bytes(upload_id).as_slice());
                Some(end)
            } else {
                None
            };
            let append = Append { upload_id, file_name: upload_file_name_bytes(upload_id), bytes };
            Outcome { append: Some(append), response }
        },
        Err(_) => {
            let message = text_rle_failure_bytes();
            Outcome { append: None, response: Some(error_response(message.as_slice())) }
        },
    }
}

/// Handles one decoded packet: updates the connection's mode and says what to
/// append and what to send back. A DATA payload is at most a frame long.
pub fn handle_packet(mode: &mut Mode, packet: Packet) -> (r: Outcome)
    requires
        packet matches Packet::DataChunk { payload, .. } ==> payload.len() <= MAX_FRAME_SIZE,
    ensures
        *final(mode) == next_mode(*old(mode), packet@),
        append_model(r.append) == append_for(*old(mode), packet@),
        response_model(r.response) == response_for(*old(mode), packet@),
{
    match packet {
        Packet::Upload { crawler_id, .. } => {
            let mut response = text_uploading_bytes();
            push_hex2(&mut response, crawler_id as u64);
            Outcome { append: None, response: Some(response) }
        },
        Packet::ModeChange { mode: new_mode } => {
            *mode = new_mode;
            Outcome { append: None, response: Some(text_mode_ack_bytes()) }
        },
        Packet::SequenceAck { .. } => {
            Outcome { append: None, response: Some(text_sequence_ack_bytes()) }
        },
        Packet::DataChunk { upload_id, payload, .. } => {
            handle_data_packet(*mode, upload_id, payload.as_slice())
        },
    }
}

/// Whether a received buffer is answered with the frame error response: it is
/// larger than a frame may be, or it does not decode.
pub open spec fn frame_rejected(frame: Seq<u8>) -> bool {
    frame.len() > MAX_FRAME_SIZE || decoded(frame) is Err
}

/// The state of one connection: its transfer mode, `Block` when it opens.
pub struct Connection {
    pub mode: Mode,
}

impl Connection {
    pub fn new() -> (c: Connection)
        ensures
            c.mode == Mode::Block,
    {
        Connection { mode: Mode::Block }
    }

    /// Handles the bytes of one received frame: a buffer that is rejected
    /// leaves the mode as it was and is answered with the error response;
    /// a decoded packet is handled under the connection's mode.
    pub fn handle_frame(&mut self, frame: &[u8]) -> (r: Outcome)
        ensures
            frame_rejected(frame@) ==> {
                &&& final(self).mode == old(self).mode
                &&& r.append is None
                &&& response_model(r.response) == Some(error_text(text_frame_failure()))
            },
            !frame_rejected(frame@) ==> {
                let p = decoded(frame@)->Ok_0;
                &&& final(self).mode == next_mode(old(self).mode, p)
                &&& append_model(r.append) == append_for(old(self).mode, p)
                &&& response_model(r.response) == response_for(old(self).mode, p)
            },
    {
        let packet = if frame.len() > MAX_FRAME_SIZE {
            None
        } else {
            match parse_packet(frame) {
                Ok(packet) => Some(packet),
                Err(_) => None,
            }
        };
        match packet {
            Some(packet) => handle_packet(&mut self.mode, packet),
            None => {
                let message = text_frame_failure_bytes();
                Outcome { append: None, response: Some(error_response(message.as_slice())) }
            },
        }
    }
}

/// A DATA chunk with an empty payload ends the transfer, in either mode: it is
/// answered with the end-of-transfer response that names the upload's store,
/// and appends no bytes to it.
pub proof fn empty_chunk_ends_transfer(mode: Mode, upload_id: u16, sequence: u16)
    ensures
        response_for(mode, PacketModel::DataChunk { upload_id, sequence, payload: Seq::empty() })
            == Some(upload_end(upload_id)),
        append_for(mode, PacketModel::DataChunk { upload_id, sequence, payload: Seq::empty() })
            == Some((upload_id, upload_file_name(upload_id), Seq::<u8>::empty())),
{
    let e = Seq::<u8>::empty();
    assert(repacked(e) =~= e);
    assert(rle_expand(e) =~= e);
}

} // verus!

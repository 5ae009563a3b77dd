use upload_receiver::dispatch::{handle_packet, Connection, Outcome};
use upload_receiver::frame::{parse_packet, FrameError, Mode, Packet};
use upload_receiver::transform::{decompress_rle, remove_redundant_bits, RleError};

fn frame(tag: &[u8], body: &[u8]) -> Vec<u8> {
    let total = 10 + body.len();
    let mut f = vec![0xC5, 0x05, (total >> 8) as u8, total as u8, 0x00, 0x01];
    f.extend_from_slice(tag);
    f.extend_from_slice(body);
    f
}

fn data_frame(upload_id: u16, sequence: u16, payload: &[u8]) -> Vec<u8> {
    let mut body = vec![(upload_id >> 8) as u8, upload_id as u8, (sequence >> 8) as u8, sequence as u8];
    body.extend_from_slice(payload);
    frame(b"DATA", &body)
}

fn frame_error() -> Vec<u8> {
    b"IAMERR\x001AFailed to parse packet".to_vec()
}

fn appended(o: &Outcome) -> Option<(u16, Vec<u8>, Vec<u8>)> {
    o.append.as_ref().map(|a| (a.upload_id, a.file_name.clone(), a.bytes.clone()))
}

#[test]
fn mode_frame_sets_block() {
    let f = vec![0xC5, 0x05, 0x00, 0x0F, 0x00, 0x01, 0x4D, 0x4F, 0x44, 0x45, b'b', b'l', b'o', b'c', b'k'];
    let mut c = Connection::new();
    c.mode = Mode::Compressed;
    let o = c.handle_frame(&f);
    assert_eq!(c.mode, Mode::Block);
    assert_eq!(o.response, Some(b"METADATAMODE".to_vec()));
    assert!(o.append.is_none());
}

#[test]
fn mode_frame_with_short_declared_size_is_rejected() {
    let f = vec![0xC5, 0x05, 0x00, 0x0E, 0x00, 0x01, 0x4D, 0x4F, 0x44, 0x45, b'b', b'l', b'o', b'c', b'k'];
    assert_eq!(parse_packet(&f), Err(FrameError::SizeMismatch));
    let mut c = Connection::new();
    let o = c.handle_frame(&f);
    assert_eq!(c.mode, Mode::Block);
    assert_eq!(o.response, Some(frame_error()));
}

#[test]
fn mode_frame_compressed_and_fallback() {
    assert_eq!(
        parse_packet(&frame(b"MODE", b"compressed")),
        Ok(Packet::ModeChange { mode: Mode::Compressed })
    );
    assert_eq!(parse_packet(&frame(b"MODE", b"fast")), Ok(Packet::ModeChange { mode: Mode::Block }));
    assert_eq!(parse_packet(&frame(b"MODE", b"")), Ok(Packet::ModeChange { mode: Mode::Block }));
    assert_eq!(
        parse_packet(&frame(b"MODE", b"compressed!")),
        Ok(Packet::ModeChange { mode: Mode::Block })
    );
}

#[test]
fn data_chunk_in_block_mode_is_repacked() {
    let mut c = Connection::new();
    let o = c.handle_frame(&data_frame(7, 1, &[0x01, 0x02, 0x01, 0x02]));
    assert_eq!(appended(&o), Some((7, b"upload_7.bin".to_vec(), vec![2, 8, 8, 2])));
    assert_eq!(o.response, None);
    assert_eq!(c.mode, Mode::Block);
}

#[test]
fn empty_data_chunk_ends_transfer_in_either_mode() {
    for mode in [Mode::Block, Mode::Compressed] {
        let mut c = Connection::new();
        c.mode = mode;
        let o = c.handle_frame(&data_frame(42, 3, &[]));
        assert_eq!(o.response, Some(b"UPLOAD END\x00upload_42.bin".to_vec()));
        assert_eq!(appended(&o), Some((42, b"upload_42.bin".to_vec(), vec![])));
        assert_eq!(c.mode, mode);
    }
}

#[test]
fn bad_magic_is_rejected() {
    let mut f = frame(b"SEQN", &[0x00, 0x05]);
    f[0] = 0x00;
    f[1] = 0x00;
    assert_eq!(parse_packet(&f), Err(FrameError::BadMagic));
    let mut c = Connection::new();
    let o = c.handle_frame(&f);
    let r = o.response.unwrap();
    assert!(r.starts_with(b"IAMERR\x00"));
    assert_eq!(r, frame_error());
    assert!(o.append.is_none());
}

#[test]
fn rle_pairs_expand() {
    assert_eq!(
        decompress_rle(&[0xAA, 0x03, 0xBB, 0x02]),
        Ok(vec![0xAA, 0xAA, 0xAA, 0xBB, 0xBB])
    );
}

#[test]
fn rle_single_pair_and_empty() {
    assert_eq!(decompress_rle(&[7, 3]), Ok(vec![7, 7, 7]));
    assert_eq!(decompress_rle(&[9, 0]), Ok(vec![]));
    assert_eq!(decompress_rle(&[1, 255]), Ok(vec![1; 255]));
    assert_eq!(decompress_rle(&[]), Ok(vec![]));
}

#[test]
fn rle_odd_stream_is_truncated() {
    assert_eq!(decompress_rle(&[0xAA]), Err(RleError::TruncatedRleStream));
    assert_eq!(decompress_rle(&[0xAA, 0x02, 0x01]), Err(RleError::TruncatedRleStream));
}

#[test]
fn repack_empty_is_empty() {
    assert_eq!(remove_redundant_bits(&[]), Vec::<u8>::new());
}

#[test]
fn repack_groups_and_leftover_bits() {
    assert_eq!(remove_redundant_bits(&[0xFF]), vec![0xFF]);
    assert_eq!(remove_redundant_bits(&[0xFF, 0xFF]), vec![0xFF, 0x7F]);
    assert_eq!(remove_redundant_bits(&[0xFF; 9]), vec![0xFF; 8]);
    assert_eq!(remove_redundant_bits(&[0x01, 0x02, 0x01, 0x02]), vec![2, 8, 8, 2]);
}

#[test]
fn repack_drops_the_ninth_bit_of_each_group() {
    let input = [0x80, 0x40, 0x20, 0x10, 0x08, 0x04, 0x02, 0x01, 0x00];
    assert_eq!(remove_redundant_bits(&input), vec![0; 8]);
}

#[test]
fn size_mismatch_at_boundaries() {
    let mut f = frame(b"UPLD", &[]);
    assert_eq!(f.len(), 10);
    assert!(parse_packet(&f).is_ok());
    f[3] = 11;
    assert_eq!(parse_packet(&f), Err(FrameError::SizeMismatch));
    f[3] = 9;
    assert_eq!(parse_packet(&f), Err(FrameError::SizeMismatch));

    let mut g = frame(b"UPLD", &[b'a'; 498]);
    assert_eq!(g.len(), 508);
    assert!(parse_packet(&g).is_ok());
    g[2] = 0x01;
    g[3] = 0xFB;
    assert_eq!(parse_packet(&g), Err(FrameError::SizeMismatch));
    g[3] = 0xFD;
    assert_eq!(parse_packet(&g), Err(FrameError::SizeMismatch));
}

#[test]
fn too_short_buffers() {
    assert_eq!(parse_packet(&[]), Err(FrameError::TooShort));
    assert_eq!(parse_packet(&[0xC5, 0x05, 0x00, 0x09, 0, 1, b'S', b'E', b'Q']), Err(FrameError::TooShort));
    assert_eq!(parse_packet(&frame(b"SEQN", &[0x00])), Err(FrameError::TooShort));
    assert_eq!(parse_packet(&frame(b"DATA", &[0x00, 0x01, 0x00])), Err(FrameError::TooShort));
}

#[test]
fn unknown_command() {
    assert_eq!(parse_packet(&frame(b"PING", &[])), Err(FrameError::UnknownCommand));
    assert_eq!(parse_packet(&frame(b"upld", &[])), Err(FrameError::UnknownCommand));
}

#[test]
fn decodes_each_command() {
    assert_eq!(
        parse_packet(&frame(b"SEQN", &[0x12, 0x34])),
        Ok(Packet::SequenceAck { sequence: 0x1234 })
    );
    assert_eq!(
        parse_packet(&data_frame(0x0102, 0x0304, &[9, 8, 7])),
        Ok(Packet::DataChunk { upload_id: 0x0102, sequence: 0x0304, payload: vec![9, 8, 7] })
    );
    let mut f = frame(b"UPLD", b"dir/file.txt");
    f[4] = 0xAB;
    f[5] = 0xCD;
    assert_eq!(
        parse_packet(&f),
        Ok(Packet::Upload { crawler_id: 0xABCD, file_path: "dir/file.txt".to_string() })
    );
}

#[test]
fn upload_path_is_decoded_lossily() {
    let f = frame(b"UPLD", &[b'a', 0xFF, b'b']);
    assert_eq!(
        parse_packet(&f),
        Ok(Packet::Upload { crawler_id: 1, file_path: "a\u{FFFD}b".to_string() })
    );
}

#[test]
fn upload_ack_renders_crawler_id_in_hex() {
    let mut mode = Mode::Block;
    let o = handle_packet(&mut mode, Packet::Upload { crawler_id: 0x0A, file_path: String::new() });
    assert_eq!(o.response, Some(b"UPLOADING\x000A".to_vec()));
    let o = handle_packet(&mut mode, Packet::Upload { crawler_id: 0xFF, file_path: String::new() });
    assert_eq!(o.response, Some(b"UPLOADING\x00FF".to_vec()));
    let o = handle_packet(&mut mode, Packet::Upload { crawler_id: 0x1234, file_path: String::new() });
    assert_eq!(o.response, Some(b"UPLOADING\x001234".to_vec()));
    assert!(o.append.is_none());
    assert_eq!(mode, Mode::Block);
}

#[test]
fn sequence_ack_keeps_mode() {
    let mut mode = Mode::Compressed;
    let o = handle_packet(&mut mode, Packet::SequenceAck { sequence: 5 });
    assert_eq!(o.response, Some(b"METADATASEQN".to_vec()));
    assert_eq!(mode, Mode::Compressed);
}

#[test]
fn compressed_mode_persists_and_expands() {
    let mut c = Connection::new();
    assert_eq!(c.mode, Mode::Block);
    let o = c.handle_frame(&frame(b"MODE", b"compressed"));
    assert_eq!(o.response, Some(b"METADATAMODE".to_vec()));
    assert_eq!(c.mode, Mode::Compressed);
    let o = c.handle_frame(&frame(b"SEQN", &[0x00, 0x01]));
    assert_eq!(o.response, Some(b"METADATASEQN".to_vec()));
    assert_eq!(c.mode, Mode::Compressed);
    let payload = [0x55, 0x00, 0xD7, 0x60, 0x20, 0x08, 0x04, 0xFE, 0x00];
    let o = c.handle_frame(&data_frame(3, 2, &payload));
    assert_eq!(
        appended(&o),
        Some((3, b"upload_3.bin".to_vec(), vec![0xAA, 0xAA, 0xAA, 0xBB, 0xBB, 0x01]))
    );
    assert_eq!(o.response, None);
}

#[test]
fn compressed_mode_odd_stream_is_answered_with_error() {
    let mut c = Connection::new();
    c.mode = Mode::Compressed;
    let o = c.handle_frame(&data_frame(3, 2, &[0xFF]));
    assert!(o.append.is_none());
    assert_eq!(o.response, Some(b"IAMERR\x0018Truncated RLE stream".to_vec()));
}

#[test]
fn oversized_buffer_is_rejected() {
    let f = frame(b"UPLD", &[b'a'; 499]);
    assert_eq!(f.len(), 509);
    assert!(parse_packet(&f).is_ok());
    let mut c = Connection::new();
    let o = c.handle_frame(&f);
    assert_eq!(o.response, Some(frame_error()));
    assert!(o.append.is_none());
}

#[test]
fn file_names_are_decimal() {
    assert_eq!(upload_receiver::dispatch::upload_file_name_bytes(0), b"upload_0.bin".to_vec());
    assert_eq!(upload_receiver::dispatch::upload_file_name_bytes(65535), b"upload_65535.bin".to_vec());
}

#[test]
fn error_response_carries_length_plus_four() {
    assert_eq!(upload_receiver::dispatch::error_response(b""), b"IAMERR\x0004".to_vec());
    assert_eq!(upload_receiver::dispatch::error_response(b"abc"), b"IAMERR\x0007abc".to_vec());
}

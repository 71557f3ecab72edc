use cyapi::{BootloaderCommand, ByteReader, CommandCode, FrameError, MAX_DATA_LENGTH};

fn command(code: CommandCode, data: Vec<u8>) -> BootloaderCommand {
    BootloaderCommand { command_code: code, data }
}

#[test]
fn max_data_length_is_frame_less_overhead() {
    assert_eq!(MAX_DATA_LENGTH, 57);
}

#[test]
fn marshal_enter_bootloader() {
    let frame = command(CommandCode::EnterBootloader, vec![]).marshal();
    assert_eq!(frame, vec![0x01, 0x38, 0x00, 0x00, 0xC7, 0xFF, 0x17]);
}

#[test]
fn marshal_send_data() {
    let frame = command(CommandCode::SendData, vec![1, 2, 3]).marshal();
    assert_eq!(frame, vec![0x01, 0x37, 0x03, 0x00, 1, 2, 3, 0xBF, 0xFF, 0x17]);
}

#[test]
fn marshal_length_is_little_endian() {
    let frame = command(CommandCode::SendData, vec![0u8; 300]).marshal();
    assert_eq!(frame.len(), 307);
    assert_eq!(frame[2], 0x2C);
    assert_eq!(frame[3], 0x01);
    assert_eq!(frame[306], 0x17);
}

#[test]
fn write_appends_the_frame() {
    let mut out = vec![0xAAu8, 0xBB];
    command(CommandCode::ExitBootloader, vec![]).write(&mut out);
    assert_eq!(out, vec![0xAA, 0xBB, 0x01, 0x3B, 0x00, 0x00, 0xC4, 0xFF, 0x17]);
}

#[test]
fn unmarshal_round_trip() {
    let payloads: Vec<Vec<u8>> = vec![vec![], vec![7], vec![0xFF; 57], (0..=255u8).collect()];
    let codes = [
        CommandCode::Success,
        CommandCode::DeviceError,
        CommandCode::ProgramRow,
        CommandCode::Unrecognized(0x7f),
    ];
    for p in &payloads {
        for c in codes {
            let sent = command(c, p.clone());
            let mut reader = ByteReader::new(sent.marshal());
            let decoded = BootloaderCommand::unmarshal(&mut reader);
            assert_eq!(decoded, Ok(sent));
            assert_eq!(reader.pos, p.len() + 7);
        }
    }
}

#[test]
fn unmarshal_round_trip_at_largest_payload() {
    let sent = command(CommandCode::SendData, vec![0x5A; 65535]);
    let mut reader = ByteReader::new(sent.marshal());
    assert_eq!(BootloaderCommand::unmarshal(&mut reader), Ok(sent));
}

#[test]
fn unmarshal_leaves_what_follows_the_frame() {
    let mut bytes = command(CommandCode::Success, vec![9, 8]).marshal();
    bytes.extend_from_slice(&[0x55, 0x66]);
    let mut reader = ByteReader::new(bytes);
    assert_eq!(
        BootloaderCommand::unmarshal(&mut reader),
        Ok(command(CommandCode::Success, vec![9, 8]))
    );
    assert_eq!(reader.pos, 9);
    assert_eq!(reader.available(), 2);
}

#[test]
fn unmarshal_refuses_bad_start() {
    let mut bytes = command(CommandCode::Success, vec![1, 2, 3]).marshal();
    bytes[0] = 0x02;
    let mut reader = ByteReader::new(bytes);
    assert_eq!(BootloaderCommand::unmarshal(&mut reader), Err(FrameError::BadStart(0x02)));
    assert_eq!(reader.pos, 1);
}

#[test]
fn unmarshal_refuses_bad_end() {
    let mut bytes = command(CommandCode::Success, vec![1, 2, 3]).marshal();
    let last = bytes.len() - 1;
    bytes[last] = 0x18;
    let mut reader = ByteReader::new(bytes);
    assert_eq!(BootloaderCommand::unmarshal(&mut reader), Err(FrameError::BadEnd(0x18)));
    assert_eq!(reader.pos, 10);
}

#[test]
fn unmarshal_refuses_wrong_checksum() {
    let mut bytes = command(CommandCode::SendData, vec![1, 2, 3]).marshal();
    bytes[7] = 0xBE;
    let mut reader = ByteReader::new(bytes);
    assert_eq!(
        BootloaderCommand::unmarshal(&mut reader),
        Err(FrameError::ChecksumMismatch { expected: 0xFFBF, found: 0xFFBE })
    );
}

#[test]
fn unmarshal_refuses_corrupted_payload() {
    let mut bytes = command(CommandCode::SendData, vec![1, 2, 3]).marshal();
    bytes[5] = 0x03;
    let mut reader = ByteReader::new(bytes);
    assert_eq!(
        BootloaderCommand::unmarshal(&mut reader),
        Err(FrameError::ChecksumMismatch { expected: 0xFFBE, found: 0xFFBF })
    );
}

#[test]
fn unmarshal_reports_short_reads() {
    let full = command(CommandCode::SendData, vec![1, 2, 3]).marshal();
    for cut in 0..full.len() {
        let mut reader = ByteReader::new(full[..cut].to_vec());
        assert_eq!(BootloaderCommand::unmarshal(&mut reader), Err(FrameError::ShortRead));
        assert_eq!(reader.pos, cut);
    }
}

#[test]
fn unmarshal_keeps_unknown_codes() {
    let bytes = vec![0x01, 0x01, 0x00, 0x00, 0xFE, 0xFF, 0x17];
    let mut reader = ByteReader::new(bytes);
    assert_eq!(
        BootloaderCommand::unmarshal(&mut reader),
        Ok(command(CommandCode::Unrecognized(0x01), vec![]))
    );
}

#[test]
fn read_skips_noise_before_the_frame() {
    let mut bytes = vec![0x00u8, 0xFF];
    bytes.extend_from_slice(&command(CommandCode::Success, vec![4, 3, 2, 1]).marshal());
    let mut reader = ByteReader::new(bytes);
    assert_eq!(
        BootloaderCommand::read(&mut reader, 5),
        Ok(command(CommandCode::Success, vec![4, 3, 2, 1]))
    );
    assert_eq!(reader.pos, 13);
}

#[test]
fn read_gives_up_after_the_attempts() {
    let mut bytes = vec![0x00u8, 0xFF, 0x22];
    bytes.extend_from_slice(&command(CommandCode::Success, vec![]).marshal());
    let mut reader = ByteReader::new(bytes);
    assert_eq!(
        BootloaderCommand::read(&mut reader, 3),
        Err(FrameError::NoFrame { attempts: 3 })
    );
    assert_eq!(reader.pos, 3);
}

#[test]
fn read_with_no_attempts_reads_nothing() {
    let mut reader = ByteReader::new(command(CommandCode::Success, vec![]).marshal());
    assert_eq!(
        BootloaderCommand::read(&mut reader, 0),
        Err(FrameError::NoFrame { attempts: 0 })
    );
    assert_eq!(reader.pos, 0);
}

#[test]
fn read_on_empty_stream_fails() {
    let mut reader = ByteReader::new(vec![]);
    assert_eq!(
        BootloaderCommand::read(&mut reader, 5),
        Err(FrameError::NoFrame { attempts: 5 })
    );
}

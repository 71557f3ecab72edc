use cyapi::{
    check_reply, image_commands, row_commands, Action, AttemptError, BootloaderCommand,
    BootloaderData, BootloaderRow, ByteReader, CommandCode, FrameError, RetryError, SessionState,
    UpdateError, UpdateSession,
};

fn command(code: CommandCode, data: Vec<u8>) -> BootloaderCommand {
    BootloaderCommand { command_code: code, data }
}

fn decode(frame: Vec<u8>) -> BootloaderCommand {
    let mut reader = ByteReader::new(frame);
    BootloaderCommand::unmarshal(&mut reader).unwrap()
}

fn row(array_id: u8, row_number: u16, len: usize) -> BootloaderRow {
    let data: Vec<u8> = (0..len).map(|i| (i % 251) as u8).collect();
    BootloaderRow { array_id, row_number, data, checksum: 0 }
}

fn open_session(silicon_id: u32, sent: &mut Vec<BootloaderCommand>) -> UpdateSession {
    let mut session = UpdateSession::new();
    sent.push(decode(UpdateSession::enter_frame()));
    let reply = command(CommandCode::Success, silicon_id.to_le_bytes().to_vec());
    let mut reader = ByteReader::new(reply.marshal());
    assert_eq!(session.enter(&mut reader), Ok(silicon_id));
    session
}

fn drive(
    session: &mut UpdateSession,
    sent: &mut Vec<BootloaderCommand>,
    answer: fn(&BootloaderCommand) -> CommandCode,
) -> Result<(), UpdateError> {
    loop {
        match session.next_action() {
            Action::Finished => return Ok(()),
            Action::Abort(e) => return Err(e),
            Action::Send(frame) => {
                let cmd = decode(frame);
                let reply = command(answer(&cmd), vec![]);
                sent.push(cmd);
                let mut reader = ByteReader::new(reply.marshal());
                let outcome = check_reply(BootloaderCommand::unmarshal(&mut reader));
                session.record(outcome);
            }
        }
    }
}

fn always_success(_: &BootloaderCommand) -> CommandCode {
    CommandCode::Success
}

fn program_row_fails(cmd: &BootloaderCommand) -> CommandCode {
    if cmd.command_code == CommandCode::ProgramRow {
        CommandCode::DeviceError
    } else {
        CommandCode::Success
    }
}

fn close_into(session: &mut UpdateSession, sent: &mut Vec<BootloaderCommand>) {
    if let Some(frame) = session.close() {
        sent.push(decode(frame));
    }
}

#[test]
fn short_row_is_one_program_row() {
    let cmds = row_commands(&BootloaderRow {
        array_id: 1,
        row_number: 0x0203,
        data: b"Hello".to_vec(),
        checksum: 0,
    });
    assert_eq!(
        cmds,
        vec![command(CommandCode::ProgramRow, vec![1, 0x03, 0x02, b'H', b'e', b'l', b'l', b'o'])]
    );
}

#[test]
fn empty_row_is_one_program_row_with_address_only() {
    let cmds = row_commands(&row(7, 0x1234, 0));
    assert_eq!(cmds, vec![command(CommandCode::ProgramRow, vec![7, 0x34, 0x12])]);
}

#[test]
fn exact_multiple_ends_in_empty_program_row() {
    let r = row(2, 9, 114);
    let cmds = row_commands(&r);
    assert_eq!(cmds.len(), 3);
    assert_eq!(cmds[0], command(CommandCode::SendData, r.data[0..57].to_vec()));
    assert_eq!(cmds[1], command(CommandCode::SendData, r.data[57..114].to_vec()));
    assert_eq!(cmds[2], command(CommandCode::ProgramRow, vec![2, 9, 0]));
}

#[test]
fn one_full_chunk_ends_in_empty_program_row() {
    let r = row(0, 1, 57);
    let cmds = row_commands(&r);
    assert_eq!(cmds.len(), 2);
    assert_eq!(cmds[0].command_code, CommandCode::SendData);
    assert_eq!(cmds[0].data.len(), 57);
    assert_eq!(cmds[1], command(CommandCode::ProgramRow, vec![0, 1, 0]));
}

#[test]
fn uneven_row_puts_the_rest_behind_the_address() {
    let r = row(3, 0x0100, 120);
    let cmds = row_commands(&r);
    assert_eq!(cmds.len(), 3);
    assert_eq!(cmds[1].data, r.data[57..114].to_vec());
    let mut last = vec![3u8, 0x00, 0x01];
    last.extend_from_slice(&r.data[114..120]);
    assert_eq!(cmds[2], command(CommandCode::ProgramRow, last));
}

#[test]
fn image_commands_follow_file_order() {
    let image = BootloaderData {
        silicon_id: 1,
        silicon_rev: 0,
        checksum_kind: 0,
        rows: vec![row(0, 1, 60), row(0, 2, 3), row(1, 0, 57)],
    };
    let cmds = image_commands(&image);
    let codes: Vec<CommandCode> = cmds.iter().map(|c| c.command_code).collect();
    assert_eq!(
        codes,
        vec![
            CommandCode::SendData,
            CommandCode::ProgramRow,
            CommandCode::ProgramRow,
            CommandCode::SendData,
            CommandCode::ProgramRow,
        ]
    );
    assert_eq!(&cmds[1].data[0..3], &[0, 1, 0]);
    assert_eq!(&cmds[2].data[0..3], &[0, 2, 0]);
    assert_eq!(cmds[4].data, vec![1, 0, 0]);
}

#[test]
fn check_reply_accepts_only_success() {
    assert_eq!(check_reply(Ok(command(CommandCode::Success, vec![1]))), Ok(()));
    assert_eq!(
        check_reply(Ok(command(CommandCode::DeviceError, vec![]))),
        Err(AttemptError::Rejected(CommandCode::DeviceError))
    );
    assert_eq!(
        check_reply(Ok(command(CommandCode::Unrecognized(0x40), vec![]))),
        Err(AttemptError::Rejected(CommandCode::Unrecognized(0x40)))
    );
    assert_eq!(
        check_reply(Err(FrameError::BadEnd(0))),
        Err(AttemptError::Frame(FrameError::BadEnd(0)))
    );
}

#[test]
fn handshake_frame_and_identifier() {
    assert_eq!(UpdateSession::enter_frame(), vec![0x01, 0x38, 0x00, 0x00, 0xC7, 0xFF, 0x17]);
    let mut session = UpdateSession::new();
    assert_eq!(session.state(), SessionState::Uninitialized);
    let reply = command(CommandCode::Success, vec![0xD4, 0xC3, 0xB2, 0xA1, 0x99]);
    let mut reader = ByteReader::new(reply.marshal());
    assert_eq!(session.enter(&mut reader), Ok(0xA1B2C3D4));
    assert_eq!(session.state(), SessionState::Active);
    assert_eq!(session.silicon_id(), 0xA1B2C3D4);
}

#[test]
fn handshake_without_reply_fails() {
    let mut session = UpdateSession::new();
    let mut reader = ByteReader::new(vec![0x00; 16]);
    assert_eq!(
        session.enter(&mut reader),
        Err(UpdateError::Handshake(FrameError::NoFrame { attempts: 5 }))
    );
    assert_eq!(reader.pos, 5);
    assert_eq!(session.state(), SessionState::Uninitialized);
    let mut sent = Vec::new();
    close_into(&mut session, &mut sent);
    assert_eq!(sent, vec![command(CommandCode::ExitBootloader, vec![])]);
}

#[test]
fn handshake_with_short_identifier_fails() {
    let mut session = UpdateSession::new();
    let mut reader = ByteReader::new(command(CommandCode::Success, vec![1, 2, 3]).marshal());
    assert_eq!(session.enter(&mut reader), Err(UpdateError::Handshake(FrameError::ShortRead)));
    assert_eq!(session.state(), SessionState::Uninitialized);
}

#[test]
fn update_end_to_end() {
    let mut sent = Vec::new();
    let mut session = open_session(0xA1B2C3D4, &mut sent);
    let image = BootloaderData::read(b"A1B2C3D401AA\n:010003000548656C6C6F03\n").unwrap();
    assert_eq!(session.update(&image, 3), Ok(()));
    assert_eq!(drive(&mut session, &mut sent, always_success), Ok(()));
    close_into(&mut session, &mut sent);
    close_into(&mut session, &mut sent);
    assert_eq!(
        sent,
        vec![
            command(CommandCode::EnterBootloader, vec![]),
            command(CommandCode::ProgramRow, vec![1, 3, 0, b'H', b'e', b'l', b'l', b'o']),
            command(CommandCode::ExitBootloader, vec![]),
        ]
    );
    assert_eq!(session.state(), SessionState::Closed);
}

#[test]
fn update_sends_every_chunk_once_when_all_succeed() {
    let mut sent = Vec::new();
    let mut session = open_session(5, &mut sent);
    let image = BootloaderData {
        silicon_id: 5,
        silicon_rev: 0,
        checksum_kind: 0,
        rows: vec![row(0, 0, 114), row(0, 1, 10)],
    };
    assert_eq!(session.update(&image, 1), Ok(()));
    assert_eq!(drive(&mut session, &mut sent, always_success), Ok(()));
    close_into(&mut session, &mut sent);
    let codes: Vec<CommandCode> = sent.iter().map(|c| c.command_code).collect();
    assert_eq!(
        codes,
        vec![
            CommandCode::EnterBootloader,
            CommandCode::SendData,
            CommandCode::SendData,
            CommandCode::ProgramRow,
            CommandCode::ProgramRow,
            CommandCode::ExitBootloader,
        ]
    );
}

#[test]
fn update_fails_after_max_attempts_on_device_error() {
    let mut sent = Vec::new();
    let mut session = open_session(5, &mut sent);
    let image = BootloaderData {
        silicon_id: 5,
        silicon_rev: 0,
        checksum_kind: 0,
        rows: vec![row(0, 0, 60), row(0, 1, 10)],
    };
    assert_eq!(session.update(&image, 4), Ok(()));
    assert_eq!(
        drive(&mut session, &mut sent, program_row_fails),
        Err(UpdateError::Retry(RetryError::Exhausted {
            attempts: 4,
            last: AttemptError::Rejected(CommandCode::DeviceError),
        }))
    );
    close_into(&mut session, &mut sent);
    let codes: Vec<CommandCode> = sent.iter().map(|c| c.command_code).collect();
    assert_eq!(
        codes,
        vec![
            CommandCode::EnterBootloader,
            CommandCode::SendData,
            CommandCode::ProgramRow,
            CommandCode::ProgramRow,
            CommandCode::ProgramRow,
            CommandCode::ProgramRow,
            CommandCode::ExitBootloader,
        ]
    );
    assert_eq!(sent[2], sent[5]);
    assert_eq!(session.close(), None);
}

#[test]
fn update_with_zero_attempts_fails_before_sending() {
    let mut sent = Vec::new();
    let mut session = open_session(5, &mut sent);
    let image =
        BootloaderData { silicon_id: 5, silicon_rev: 0, checksum_kind: 0, rows: vec![row(0, 0, 1)] };
    assert_eq!(session.update(&image, 0), Ok(()));
    assert_eq!(
        drive(&mut session, &mut sent, always_success),
        Err(UpdateError::Retry(RetryError::NoAttempts))
    );
    assert_eq!(sent.len(), 1);
}

#[test]
fn update_refuses_image_for_another_chip() {
    let mut sent = Vec::new();
    let mut session = open_session(5, &mut sent);
    let image =
        BootloaderData { silicon_id: 6, silicon_rev: 0, checksum_kind: 0, rows: vec![row(0, 0, 1)] };
    assert_eq!(
        session.update(&image, 3),
        Err(UpdateError::SiliconMismatch { image: 6, device: 5 })
    );
    assert_eq!(session.next_action(), Action::Finished);
    close_into(&mut session, &mut sent);
    assert_eq!(
        sent,
        vec![
            command(CommandCode::EnterBootloader, vec![]),
            command(CommandCode::ExitBootloader, vec![]),
        ]
    );
}

#[test]
fn close_gives_the_exit_frame_once() {
    let mut session = UpdateSession::new();
    assert_eq!(session.close(), Some(vec![0x01, 0x3B, 0x00, 0x00, 0xC4, 0xFF, 0x17]));
    assert_eq!(session.state(), SessionState::Closed);
    assert_eq!(session.close(), None);
    assert_eq!(session.close(), None);
}

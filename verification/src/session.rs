//! The update session: the handshake that enters the bootloader, the
//! commands that program an image row by row, and the command that
//! leaves the bootloader, sent once.

use crate::command::CommandCode;
use crate::cyacd::{row_models, BootloaderData, BootloaderRow, RowModel};
use crate::endian::{read_u32_le, u32_of, write_u16_le};
use crate::frame::{
    frame_bytes, read_frame, read_rest, BootloaderCommand, ByteReader, CommandModel, FrameError,
    MAX_DATA_LENGTH,
};
use crate::retry::{AttemptError, Retry, RetryError, RetryStep};
use vstd::prelude::*;

verus! {

/// How often the reply to the handshake is looked for.
pub const HANDSHAKE_ATTEMPTS: u8 = 5;

/// Where a session stands.
#[derive(Clone, Copy, Debug, PartialEq, Eq, Structural)]
pub enum SessionState {
    /// The bootloader has not answered the handshake yet.
    Uninitialized,
    /// The bootloader has answered and takes programming commands.
    Active,
    /// The bootloader has been told to leave.
    Closed,
}

/// Why a session could not be opened or an update could not be started.
#[derive(Clone, Copy, Debug, PartialEq, Eq, Structural)]
pub enum UpdateError {
    /// No usable reply to the handshake.
    Handshake(FrameError),
    /// The image is for another chip than the one attached.
    SiliconMismatch { image: u32, device: u32 },
    /// A command failed for good.
    Retry(RetryError),
}

/// What the owner of the transport does next for a running update.
#[derive(Clone, Debug, PartialEq, Eq)]
pub enum Action {
    /// Send this frame, read one reply and report the outcome.
    Send(Vec<u8>),
    /// Every command has been delivered.
    Finished,
    /// The update is given up.
    Abort(UpdateError),
}

/// The commands of a vector as mathematical values, in order.
pub open spec fn command_models(cmds: Seq<BootloaderCommand>) -> Seq<CommandModel> {
    Seq::new(cmds.len(), |i: int| cmds[i]@)
}

/// The address that precedes the last chunk of a row: the array id and
/// the row number, low byte first.
pub open spec fn row_address(row: RowModel) -> Seq<u8> {
    seq![row.array_id, (row.row_number % 256) as u8, (row.row_number / 256) as u8]
}

/// The number of full chunks that precede the last chunk of a row.
pub open spec fn full_chunks(row: RowModel) -> int {
    row.data.len() as int / 57
}

/// The commands that program one row: a `SendData` for each full chunk
/// of its data, then a `ProgramRow` with the row's address and what is
/// left of the data, which may be nothing.
pub open spec fn row_plan(row: RowModel) -> Seq<CommandModel> {
    Seq::new(
        (full_chunks(row) + 1) as nat,
        |i: int|
            if i < full_chunks(row) {
                CommandModel {
                    code: CommandCode::SendData,
                    payload: row.data.subrange(i * 57, i * 57 + 57),
                }
            } else {
                CommandModel {
                    code: CommandCode::ProgramRow,
                    payload: row_address(row) + row.data.subrange(
                        full_chunks(row) * 57,
                        row.data.len() as int,
                    ),
                }
            },
    )
}

/// The commands that program all rows, in the rows' order.
pub open spec fn image_plan(rows: Seq<RowModel>) -> Seq<CommandModel>
    decreases rows.len(),
{
    if rows.len() == 0 {
        Seq::empty()
    } else {
        image_plan(rows.drop_last()) + row_plan(rows.last())
    }
}

/// The chip identifier at the front of a handshake reply's payload,
/// lowest byte first.
pub open spec fn reply_silicon_id(payload: Seq<u8>) -> Option<u32> {
    if payload.len() < 4 {
        None
    } else {
        Some(u32_of(payload[0], payload[1], payload[2], payload[3]) as u32)
    }
}

/// Copies the bytes of `src` from `from` up to `to` to the end of `out`.
fn append_range(out: &mut Vec<u8>, src: &Vec<u8>, from: usize, to: usize)
    requires
        from <= to <= src@.len(),
    ensures
        final(out)@ == old(out)@ + src@.subrange(from as int, to as int),
{
    let mut i: usize = from;
    while i < to
        invariant
            from <= i <= to <= src@.len(),
            out@ == old(out)@ + src@.subrange(from as int, i as int),
        decreases to - i,
    {
        out.push(src[i]);
        i += 1;
        assert(out@ =~= old(out)@ + src@.subrange(from as int, i as int));
    }
    assert(src@.subrange(from as int, i as int) =~= src@.subrange(from as int, to as int));
}

/// Builds the commands that program one row.
pub fn row_commands(row: &BootloaderRow) -> (cmds: Vec<BootloaderCommand>)
    ensures
        command_models(cmds@) == row_plan(row@),
        forall|i: int| 0 <= i < cmds@.len() ==> (#[trigger] cmds@[i]).data@.len() <= 60,
{
    let chunk_count: usize = row.data.len() / MAX_DATA_LENGTH;
    let mut cmds: Vec<BootloaderCommand> = Vec::new();
    let mut i: usize = 0;
    while i < chunk_count
        invariant
            i <= chunk_count,
            chunk_count == full_chunks(row@),
            chunk_count * 57 <= row.data@.len() <= usize::MAX,
            cmds@.len() == i,
            forall|j: int| 0 <= j < i ==> (#[trigger] cmds@[j])@ == row_plan(row@)[j],
            forall|j: int| 0 <= j < i ==> (#[trigger] cmds@[j]).data@.len() <= 60,
        decreases chunk_count - i,
    {
        let index: usize = i * MAX_DATA_LENGTH;
        let mut data: Vec<u8> = Vec::new();
        append_range(&mut data, &row.data, index, index + MAX_DATA_LENGTH);
        assert(data@ =~= row@.data.subrange(i * 57, i * 57 + 57));
        cmds.push(BootloaderCommand { command_code: CommandCode::SendData, data });
        i += 1;
    }
    let index: usize = chunk_count * MAX_DATA_LENGTH;
    let mut data: Vec<u8> = Vec::new();
    data.push(row.array_id);
    let number = write_u16_le(row.row_number);
    data.push(number[0]);
    data.push(number[1]);
    assert(data@ =~= row_address(row@));
    append_range(&mut data, &row.data, index, row.data.len());
    cmds.push(BootloaderCommand { command_code: CommandCode::ProgramRow, data });
    assert(command_models(cmds@) =~= row_plan(row@));
    cmds
}

/// Builds the commands that program all rows of an image, in file order.
pub fn image_commands(image: &BootloaderData) -> (cmds: Vec<BootloaderCommand>)
    ensures
        command_models(cmds@) == image_plan(image@.rows),
        forall|i: int| 0 <= i < cmds@.len() ==> (#[trigger] cmds@[i]).data@.len() <= 60,
{
    let mut cmds: Vec<BootloaderCommand> = Vec::new();
    let mut r: usize = 0;
    assert(image@.rows.take(0) =~= Seq::empty());
    assert(command_models(cmds@) =~= Seq::empty());
    while r < image.rows.len()
        invariant
            r <= image.rows@.len(),
            command_models(cmds@) == image_plan(image@.rows.take(r as int)),
            forall|i: int| 0 <= i < cmds@.len() ==> (#[trigger] cmds@[i]).data@.len() <= 60,
        decreases image.rows@.len() - r,
    {
        let ghost before = cmds@;
        let mut part = row_commands(&image.rows[r]);
        let ghost added = part@;
        cmds.append(&mut part);
        proof {
            assert(cmds@ == before + added);
            assert(command_models(cmds@) =~= command_models(before) + command_models(added));
            let upto = image@.rows.take(r as int + 1);
            assert(upto.drop_last() =~= image@.rows.take(r as int));
            assert(upto.last() == image.rows@[r as int]@);
        }
        r += 1;
    }
    assert(image@.rows.take(r as int) =~= image@.rows);
    cmds
}

/// A row whose data is exactly `k` full chunks is programmed by `k`
/// `SendData` commands of one full chunk each, followed by one
/// `ProgramRow` command that carries the row's address and no data:
/// `k + 1` commands, never `k`.
pub proof fn lemma_exact_multiple_plan(row: RowModel, k: nat)
    requires
        row.data.len() == k * 57,
    ensures
        row_plan(row).len() == k + 1,
        forall|i: int|
            0 <= i < k ==> (#[trigger] row_plan(row)[i]).code == CommandCode::SendData
                && row_plan(row)[i].payload == row.data.subrange(i * 57, i * 57 + 57),
        row_plan(row)[k as int].code == CommandCode::ProgramRow,
        row_plan(row)[k as int].payload == row_address(row),
{
    assert(full_chunks(row) == k) by (nonlinear_arith)
        requires
            full_chunks(row) == (row.data.len() as int) / 57,
            row.data.len() == k * 57,
    ;
    assert(row_plan(row)[k as int].payload =~= row_address(row));
}

/// Every row ends in exactly one `ProgramRow`, which carries the row's
/// address and the data that no full chunk holds, fewer bytes than a
/// chunk; all commands before it are `SendData` commands, which carry
/// the full chunks of the data one after the other, so that nothing of
/// the data is left out or sent twice.
pub proof fn lemma_row_plan_shape(row: RowModel)
    ensures
        row_plan(row).len() == full_chunks(row) + 1,
        0 <= row.data.len() - full_chunks(row) * 57 < 57,
        row_plan(row).last().code == CommandCode::ProgramRow,
        row_plan(row).last().payload == row_address(row) + row.data.skip(full_chunks(row) * 57),
        forall|i: int|
            0 <= i < full_chunks(row) ==> (#[trigger] row_plan(row)[i]).code
                == CommandCode::SendData && row_plan(row)[i].payload == row.data.subrange(
                i * 57,
                i * 57 + 57,
            ) && row_plan(row)[i].payload.len() == 57,
{
    assert(row.data.skip(full_chunks(row) * 57) =~= row.data.subrange(
        full_chunks(row) * 57,
        row.data.len() as int,
    ));
}

/// The progress of an update as a mathematical value: the commands to
/// deliver, how many of them have been delivered, and the retry state of
/// the one that is being delivered.
pub struct Progress {
    pub plan: Seq<CommandModel>,
    pub delivered: int,
    pub attempt: Retry,
}

/// What an update in some state of progress asks for.
pub enum Next {
    /// Every command has been delivered.
    Finished,
    /// Send this command, read one reply and report the outcome.
    Send(CommandModel),
    /// The command that was being delivered has failed for good.
    Abort(RetryError),
}

impl Progress {
    /// The progress of an update that has just been started.
    pub open spec fn start(plan: Seq<CommandModel>, max_attempts: u16) -> Progress {
        Progress { plan, delivered: 0, attempt: Retry::fresh(max_attempts) }
    }

    /// What the update asks for in this state.
    pub open spec fn next(self) -> Next {
        if self.delivered >= self.plan.len() {
            Next::Finished
        } else {
            match self.attempt.step() {
                RetryStep::Failed(e) => Next::Abort(e),
                _ => Next::Send(self.plan[self.delivered]),
            }
        }
    }

    /// The progress after the outcome of one attempt: a success moves on
    /// to the next command with a fresh count of attempts, a failure
    /// counts against the same command.
    pub open spec fn after(self, outcome: Result<(), AttemptError>) -> Progress {
        match outcome {
            Ok(_) => Progress {
                plan: self.plan,
                delivered: self.delivered + 1,
                attempt: Retry::fresh(self.attempt.max_attempts),
            },
            Err(_) => Progress {
                plan: self.plan,
                delivered: self.delivered,
                attempt: self.attempt.after(outcome),
            },
        }
    }

    /// The progress after the outcomes of several attempts, in order.
    pub open spec fn run(self, outcomes: Seq<Result<(), AttemptError>>) -> Progress
        decreases outcomes.len(),
    {
        if outcomes.len() == 0 {
            self
        } else {
            self.run(outcomes.drop_last()).after(outcomes.last())
        }
    }
}

/// `n` attempts that all succeed.
pub open spec fn successes(n: nat) -> Seq<Result<(), AttemptError>> {
    Seq::new(n, |i: int| Ok::<(), AttemptError>(()))
}

/// `n` attempts that all fail with `e`.
pub open spec fn failures(n: nat, e: AttemptError) -> Seq<Result<(), AttemptError>> {
    Seq::new(n, |i: int| Err::<(), AttemptError>(e))
}

/// Where every attempt succeeds, every command is sent once, in the
/// plan's order, and after the last one the update is finished without
/// error.
pub proof fn lemma_all_succeed(plan: Seq<CommandModel>, max_attempts: u16, k: nat)
    requires
        max_attempts >= 1,
        k <= plan.len(),
    ensures
        Progress::start(plan, max_attempts).run(successes(k)) == (Progress {
            plan,
            delivered: k as int,
            attempt: Retry::fresh(max_attempts),
        }),
        k < plan.len() ==> Progress::start(plan, max_attempts).run(successes(k)).next()
            == Next::Send(plan[k as int]),
        k == plan.len() ==> Progress::start(plan, max_attempts).run(successes(k)).next()
            == Next::Finished,
    decreases k,
{
    if k > 0 {
        lemma_all_succeed(plan, max_attempts, (k - 1) as nat);
        assert(successes(k).drop_last() =~= successes((k - 1) as nat));
    }
}

/// Where a command fails every time with the same error, it is sent
/// exactly `max_attempts` times and then the update is given up with that
/// error; the commands behind it are never sent.
pub proof fn lemma_always_failing_command(p: Progress, e: AttemptError, j: nat)
    requires
        p.attempt == Retry::fresh(p.attempt.max_attempts),
        p.attempt.max_attempts >= 1,
        0 <= p.delivered < p.plan.len(),
        j <= p.attempt.max_attempts,
    ensures
        p.run(failures(j, e)).plan == p.plan,
        p.run(failures(j, e)).delivered == p.delivered,
        p.run(failures(j, e)).attempt.attempts == j,
        p.run(failures(j, e)).attempt.max_attempts == p.attempt.max_attempts,
        !p.run(failures(j, e)).attempt.succeeded,
        j > 0 ==> p.run(failures(j, e)).attempt.last == Some(e),
        j < p.attempt.max_attempts ==> p.run(failures(j, e)).next() == Next::Send(
            p.plan[p.delivered],
        ),
        j == p.attempt.max_attempts ==> p.run(failures(j, e)).next() == Next::Abort(
            RetryError::Exhausted { attempts: p.attempt.max_attempts, last: e },
        ),
    decreases j,
{
    if j > 0 {
        lemma_always_failing_command(p, e, (j - 1) as nat);
        assert(failures(j, e).drop_last() =~= failures((j - 1) as nat, e));
    }
}

/// Judges the reply to a programming command: only a frame that decodes
/// and carries `Success` counts as delivered.
pub fn check_reply(reply: Result<BootloaderCommand, FrameError>) -> (r: Result<(), AttemptError>)
    ensures
        r == (match reply {
            Ok(c) => if c.command_code == CommandCode::Success {
                Ok::<(), AttemptError>(())
            } else {
                Err::<(), AttemptError>(AttemptError::Rejected(c.command_code))
            },
            Err(e) => Err::<(), AttemptError>(AttemptError::Frame(e)),
        }),
{
    match reply {
        Ok(c) => match c.command_code {
            CommandCode::Success => Ok(()),
            other => Err(AttemptError::Rejected(other)),
        },
        Err(e) => Err(AttemptError::Frame(e)),
    }
}

/// A session with the bootloader of one attached device.
#[derive(Debug)]
pub struct UpdateSession {
    state: SessionState,
    silicon_id: u32,
    commands: Vec<BootloaderCommand>,
    cursor: usize,
    retry: Retry,
}

impl UpdateSession {
    /// Where the session stands.
    pub closed spec fn state_of(&self) -> SessionState {
        self.state
    }

    /// The chip identifier that the device gave in the handshake.
    pub closed spec fn device_id(&self) -> u32 {
        self.silicon_id
    }

    /// The commands of the running update.
    pub closed spec fn plan(&self) -> Seq<CommandModel> {
        command_models(self.commands@)
    }

    /// How many commands of the running update have been delivered.
    pub closed spec fn delivered(&self) -> int {
        self.cursor as int
    }

    /// The retry state of the command that is being delivered.
    pub closed spec fn attempt(&self) -> Retry {
        self.retry
    }

    /// The session's invariant: programming commands are queued only while
    /// the session is active, the cursor lies within the queue, and every
    /// queued command fits a frame.
    pub closed spec fn wf(&self) -> bool {
        &&& self.cursor <= self.commands@.len()
        &&& (self.state != SessionState::Active ==> self.commands@.len() == 0)
        &&& self.retry.wf()
        &&& !self.retry.succeeded
        &&& forall|i: int|
            0 <= i < self.commands@.len() ==> (#[trigger] self.commands@[i]).data@.len() <= 60
    }

    /// The progress of the running update.
    pub open spec fn progress(&self) -> Progress {
        Progress { plan: self.plan(), delivered: self.delivered(), attempt: self.attempt() }
    }

    /// Some command of the running update is not delivered yet.
    pub open spec fn pending(&self) -> bool {
        self.delivered() < self.plan().len()
    }

    /// Programming commands are pending only while the session is active:
    /// before the handshake and after the close there is nothing to send.
    pub proof fn lemma_pending_only_while_active(&self)
        requires
            self.wf(),
        ensures
            self.pending() ==> self.state_of() == SessionState::Active,
            0 <= self.delivered() <= self.plan().len(),
            !self.attempt().succeeded,
            !(self.progress().next() is Finished) ==> self.state_of() == SessionState::Active,
    {
    }

    /// A session that has not yet entered the bootloader.
    pub fn new() -> (s: UpdateSession)
        ensures
            s.wf(),
            s.state_of() == SessionState::Uninitialized,
            s.device_id() == 0,
            s.progress() == Progress::start(Seq::empty(), 0),
    {
        assert(command_models(Seq::<BootloaderCommand>::empty()) =~= Seq::<CommandModel>::empty());
        UpdateSession {
            state: SessionState::Uninitialized,
            silicon_id: 0,
            commands: Vec::new(),
            cursor: 0,
            retry: Retry::new(0),
        }
    }

    /// The frame that asks the device to enter its bootloader.
    pub fn enter_frame() -> (frame: Vec<u8>)
        ensures
            frame@ == frame_bytes(
                CommandModel { code: CommandCode::EnterBootloader, payload: Seq::empty() },
            ),
    {
        let c = BootloaderCommand { command_code: CommandCode::EnterBootloader, data: Vec::new() };
        c.marshal()
    }

    /// Takes in the reply to the handshake. The reply frame is looked for
    /// a fixed number of times; its payload starts with the chip
    /// identifier, lowest byte first. On success the session is active
    /// and keeps the identifier; otherwise it stays as it was.
    pub fn enter(&mut self, reader: &mut ByteReader) -> (r: Result<u32, UpdateError>)
        requires
            old(self).wf(),
            old(self).state_of() == SessionState::Uninitialized,
            old(reader).wf(),
        ensures
            final(self).wf(),
            final(self).progress() == old(self).progress(),
            final(reader).wf(),
            final(reader).bytes@ == old(reader).bytes@,
            final(reader).remaining() == read_rest(
                old(reader).remaining(),
                HANDSHAKE_ATTEMPTS as nat,
            ),
            match read_frame(old(reader).remaining(), HANDSHAKE_ATTEMPTS as nat) {
                None => r == Err::<u32, UpdateError>(
                    UpdateError::Handshake(FrameError::NoFrame { attempts: HANDSHAKE_ATTEMPTS }),
                ),
                Some(m) => match reply_silicon_id(m.payload) {
                    None => r == Err::<u32, UpdateError>(
                        UpdateError::Handshake(FrameError::ShortRead),
                    ),
                    Some(id) => r == Ok::<u32, UpdateError>(id),
                },
            },
            match r {
                Ok(id) => final(self).state_of() == SessionState::Active && final(self).device_id()
                    == id,
                Err(_) => final(self).state_of() == SessionState::Uninitialized
                    && final(self).device_id() == old(self).device_id(),
            },
    {
        match BootloaderCommand::read(reader, HANDSHAKE_ATTEMPTS) {
            Err(e) => Err(UpdateError::Handshake(e)),
            Ok(reply) => {
                if reply.data.len() < 4 {
                    Err(UpdateError::Handshake(FrameError::ShortRead))
                } else {
                    let id = read_u32_le(reply.data.as_slice());
                    self.silicon_id = id;
                    self.state = SessionState::Active;
                    Ok(id)
                }
            },
        }
    }

    /// Where the session stands.
    pub fn state(&self) -> (s: SessionState)
        ensures
            s == self.state_of(),
    {
        self.state
    }

    /// The chip identifier that the device gave in the handshake.
    pub fn silicon_id(&self) -> (id: u32)
        ensures
            id == self.device_id(),
    {
        self.silicon_id
    }

    /// Starts an update with `image`. An image for another chip is
    /// refused at once and nothing is queued. Otherwise the commands of
    /// all rows are queued, in file order, each to be tried up to
    /// `max_attempts` times.
    pub fn update(&mut self, image: &BootloaderData, max_attempts: u16) -> (r: Result<
        (),
        UpdateError,
    >)
        requires
            old(self).wf(),
            old(self).state_of() == SessionState::Active,
        ensures
            final(self).wf(),
            final(self).state_of() == SessionState::Active,
            final(self).device_id() == old(self).device_id(),
            image.silicon_id != old(self).device_id() ==> r == Err::<(), UpdateError>(
                UpdateError::SiliconMismatch {
                    image: image.silicon_id,
                    device: old(self).device_id(),
                },
            ) && final(self).progress() == Progress::start(Seq::empty(), max_attempts),
            image.silicon_id == old(self).device_id() ==> r is Ok && final(self).progress()
                == Progress::start(image_plan(image@.rows), max_attempts),
    {
        self.cursor = 0;
        self.retry = Retry::new(max_attempts);
        if image.silicon_id != self.silicon_id {
            self.commands = Vec::new();
            assert(command_models(self.commands@) =~= Seq::<CommandModel>::empty());
            return Err(
                UpdateError::SiliconMismatch { image: image.silicon_id, device: self.silicon_id },
            );
        }
        self.commands = image_commands(image);
        Ok(())
    }

    /// Says what to do next for the running update: send the frame of the
    /// first command that is not delivered yet, stop because all are
    /// delivered, or give up because that command failed for good.
    pub fn next_action(&self) -> (a: Action)
        requires
            self.wf(),
        ensures
            !(a is Finished) ==> self.state_of() == SessionState::Active,
            match a {
                Action::Finished => self.progress().next() is Finished,
                Action::Send(frame) => self.progress().next() is Send && frame@ == frame_bytes(
                    self.progress().next()->Send_0,
                ),
                Action::Abort(e) => self.progress().next() is Abort && e == UpdateError::Retry(
                    self.progress().next()->Abort_0,
                ),
            },
    {
        assert(command_models(self.commands@).len() == self.commands.len());
        if self.cursor >= self.commands.len() {
            return Action::Finished;
        }
        match self.retry.next() {
            RetryStep::Failed(e) => Action::Abort(UpdateError::Retry(e)),
            _ => Action::Send(self.commands[self.cursor].marshal()),
        }
    }

    /// Takes in the outcome of the attempt that `next_action` asked for.
    /// A success moves on to the next command with a fresh count of
    /// attempts; a failure counts against the same command. The result
    /// says whether the caller is to pause before going on.
    pub fn record(&mut self, outcome: Result<(), AttemptError>) -> (pause: bool)
        requires
            old(self).wf(),
            old(self).progress().next() is Send,
        ensures
            final(self).wf(),
            final(self).state_of() == SessionState::Active,
            final(self).device_id() == old(self).device_id(),
            final(self).progress() == old(self).progress().after(outcome),
            pause == outcome is Err,
    {
        match outcome {
            Ok(_) => {
                assert(command_models(self.commands@).len() == self.commands.len());
                self.cursor = self.cursor + 1;
                self.retry = Retry::new(self.retry.max_attempts);
                false
            },
            Err(_) => self.retry.record(outcome),
        }
    }

    /// Ends the session. The first call on a session gives the frame that
    /// tells the device to leave its bootloader, in whatever state the
    /// session was; every later call gives nothing. What had been queued
    /// is dropped.
    pub fn close(&mut self) -> (frame: Option<Vec<u8>>)
        requires
            old(self).wf(),
        ensures
            final(self).wf(),
            final(self).state_of() == SessionState::Closed,
            final(self).device_id() == old(self).device_id(),
            final(self).progress() == Progress::start(Seq::empty(), 0),
            old(self).state_of() == SessionState::Closed ==> frame is None,
            old(self).state_of() != SessionState::Closed ==> frame is Some && frame->Some_0@
                == frame_bytes(
                CommandModel { code: CommandCode::ExitBootloader, payload: Seq::empty() },
            ),
    {
        let was_closed = match self.state {
            SessionState::Closed => true,
            _ => false,
        };
        self.state = SessionState::Closed;
        self.commands = Vec::new();
        self.cursor = 0;
        self.retry = Retry::new(0);
        assert(command_models(self.commands@) =~= Seq::<CommandModel>::empty());
        if was_closed {
            None
        } else {
            let c = BootloaderCommand {
                command_code: CommandCode::ExitBootloader,
                data: Vec::new(),
            };
            Some(c.marshal())
        }
    }
}

} // verus!

use cyapi::{AttemptError, CommandCode, FrameError, Retry, RetryError, RetryStep};

fn run(max_attempts: u16, outcomes: &[Result<(), AttemptError>]) -> (RetryStep, Vec<u16>, usize) {
    let mut retry = Retry::new(max_attempts);
    let mut invoked: Vec<u16> = Vec::new();
    let mut pauses = 0;
    loop {
        match retry.next() {
            RetryStep::Invoke(index) => {
                let outcome = outcomes[invoked.len()];
                invoked.push(index);
                if retry.record(outcome) {
                    pauses += 1;
                }
            }
            done => return (done, invoked, pauses),
        }
    }
}

#[test]
fn retry_zero_never_invokes() {
    let (end, invoked, pauses) = run(0, &[]);
    assert_eq!(end, RetryStep::Failed(RetryError::NoAttempts));
    assert!(invoked.is_empty());
    assert_eq!(pauses, 0);
}

#[test]
fn retry_all_failing_invokes_every_attempt() {
    let outcomes = vec![
        Err(AttemptError::Transport),
        Err(AttemptError::Frame(FrameError::ShortRead)),
        Err(AttemptError::Rejected(CommandCode::RowError)),
        Err(AttemptError::Rejected(CommandCode::DeviceError)),
    ];
    let (end, invoked, pauses) = run(4, &outcomes);
    assert_eq!(
        end,
        RetryStep::Failed(RetryError::Exhausted {
            attempts: 4,
            last: AttemptError::Rejected(CommandCode::DeviceError),
        })
    );
    assert_eq!(invoked, vec![0, 1, 2, 3]);
    assert_eq!(pauses, 4);
}

#[test]
fn retry_single_attempt_failing() {
    let (end, invoked, _) = run(1, &[Err(AttemptError::Transport)]);
    assert_eq!(
        end,
        RetryStep::Failed(RetryError::Exhausted { attempts: 1, last: AttemptError::Transport })
    );
    assert_eq!(invoked, vec![0]);
}

#[test]
fn retry_stops_at_first_success() {
    let outcomes = vec![Err(AttemptError::Transport), Ok(()), Err(AttemptError::Transport)];
    let (end, invoked, pauses) = run(3, &outcomes);
    assert_eq!(end, RetryStep::Done);
    assert_eq!(invoked, vec![0, 1]);
    assert_eq!(pauses, 1);
}

#[test]
fn retry_immediate_success() {
    let (end, invoked, pauses) = run(65535, &[Ok(())]);
    assert_eq!(end, RetryStep::Done);
    assert_eq!(invoked, vec![0]);
    assert_eq!(pauses, 0);
}

#[test]
fn retry_pause_is_fixed() {
    assert_eq!(cyapi::retry::SLEEP_TIME_BETWEEN_RETRIES_MS, 400);
}

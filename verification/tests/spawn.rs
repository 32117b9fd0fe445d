use elapsed::outcome::SpawnFailure;
use elapsed::source::{ChildOutput, Delivery, ReadOutcome, EIO};
use elapsed::spawn::{Elapsed, PtySize, SpawnPlan, SpawnStage, Transport};

fn config(tty: bool, split_stderr: bool) -> Elapsed {
    Elapsed {
        cmd: b"sleep".to_vec(),
        args: vec![b"1".to_vec()],
        total: false,
        tty,
        split_stderr,
    }
}

#[test]
fn plain_uses_two_pipes() {
    let plan = config(false, false).spawn(Some((80, 24)));
    assert_eq!(
        plan,
        SpawnPlan {
            transport: Transport::Plain,
            inherit_stdin: true,
            pipe_stdout: true,
            pipe_stderr: true,
            kill_on_drop: true,
            primary: ChildOutput::Stdout,
            secondary: ChildOutput::Stderr,
        }
    );
    assert_eq!(config(false, true).spawn(None), plan);
    assert_eq!(config(true, true).spawn_plain(), plan);
}

#[test]
fn pty_unifies_output() {
    let plan = config(true, false).spawn(Some((80, 24)));
    assert_eq!(
        plan,
        SpawnPlan {
            transport: Transport::Pty {
                resize: Some(PtySize { rows: 24, cols: 80 }),
            },
            inherit_stdin: true,
            pipe_stdout: false,
            pipe_stderr: false,
            kill_on_drop: true,
            primary: ChildOutput::Pty,
            secondary: ChildOutput::Null,
        }
    );
}

#[test]
fn pty_with_split_stderr() {
    let plan = config(true, true).spawn(None);
    assert_eq!(plan.transport, Transport::Pty { resize: None });
    assert!(plan.pipe_stderr);
    assert_eq!(plan.primary, ChildOutput::Pty);
    assert_eq!(plan.secondary, ChildOutput::Stderr);
    assert_eq!(config(false, true).spawn_tty(None), plan);
}

#[test]
fn failures_by_stage() {
    let plain = config(false, false).spawn(None);
    assert_eq!(plain.failure(SpawnStage::Spawn), SpawnFailure::Spawn);
    let pty = config(true, false).spawn(None);
    assert_eq!(pty.failure(SpawnStage::OpenPty), SpawnFailure::OpenPty);
    assert_eq!(pty.failure(SpawnStage::ResizePty), SpawnFailure::ResizePty);
    assert_eq!(pty.failure(SpawnStage::Spawn), SpawnFailure::SpawnPty);
}

#[test]
fn pipes_pass_reads_on() {
    for source in [ChildOutput::Stdout, ChildOutput::Stderr, ChildOutput::Pty] {
        assert!(source.is_read());
        assert_eq!(
            source.poll_read(ReadOutcome::Data(b"ab\xFF".to_vec())),
            Delivery::Chunk(b"ab\xFF".to_vec())
        );
        assert_eq!(
            source.poll_read(ReadOutcome::Data(Vec::new())),
            Delivery::Chunk(Vec::new())
        );
        assert_eq!(
            source.poll_read(ReadOutcome::Failed(None)),
            Delivery::Failure
        );
        assert_eq!(
            source.poll_read(ReadOutcome::Failed(Some(32))),
            Delivery::Failure
        );
    }
}

#[test]
fn pty_takes_eio_for_end_of_stream() {
    assert_eq!(EIO, 5);
    assert_eq!(
        ChildOutput::Pty.poll_read(ReadOutcome::Failed(Some(5))),
        Delivery::Chunk(Vec::new())
    );
    assert_eq!(
        ChildOutput::Stdout.poll_read(ReadOutcome::Failed(Some(5))),
        Delivery::Failure
    );
    assert_eq!(
        ChildOutput::Stderr.poll_read(ReadOutcome::Failed(Some(5))),
        Delivery::Failure
    );
}

#[test]
fn null_source_never_completes() {
    assert!(!ChildOutput::Null.is_read());
    assert_eq!(
        ChildOutput::Null.poll_read(ReadOutcome::Data(b"x".to_vec())),
        Delivery::Nothing
    );
    assert_eq!(
        ChildOutput::Null.poll_read(ReadOutcome::Data(Vec::new())),
        Delivery::Nothing
    );
    assert_eq!(
        ChildOutput::Null.poll_read(ReadOutcome::Failed(Some(9))),
        Delivery::Nothing
    );
    assert_eq!(
        ChildOutput::Null.poll_read(ReadOutcome::Failed(Some(5))),
        Delivery::Nothing
    );
}

#[test]
fn only_null_never_completes() {
    for source in [ChildOutput::Stdout, ChildOutput::Stderr, ChildOutput::Pty] {
        assert_ne!(
            source.poll_read(ReadOutcome::Data(Vec::new())),
            Delivery::Nothing
        );
        assert_ne!(
            source.poll_read(ReadOutcome::Failed(Some(5))),
            Delivery::Nothing
        );
        assert_ne!(source.poll_read(ReadOutcome::Failed(None)), Delivery::Nothing);
    }
}

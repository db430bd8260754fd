use flasherd::protocol::Arg;
use flasherd::protocol::ErrorReason;
use flasherd::protocol::HostOs;
use flasherd::protocol::InboundMessage;
use flasherd::protocol::OutboundMessage;
use flasherd::protocol::map_exit_status;
use flasherd::resolve::resolve_arg;
use flasherd::session::BridgeAction;
use flasherd::session::IntakeAction;
use flasherd::session::OutboundLog;
use flasherd::session::Session;
use flasherd::session::SessionPhase;
use flasherd::session::StdinWriteOutcome;
use flasherd::session::stdin_forwarding_continues;
use flasherd::uploads::UploadStore;

fn upload_msg(name: &[u8], chunk: Option<&[u8]>) -> InboundMessage {
    InboundMessage {
        binary_name: Some(name.to_vec()),
        binary_chunk: chunk.map(|c| c.to_vec()),
        ..InboundMessage::default()
    }
}

fn spawn_msg(command: &[u8], args: Vec<Arg>) -> InboundMessage {
    InboundMessage {
        command_linux: Some(command.to_vec()),
        args,
        ..InboundMessage::default()
    }
}

fn literal(v: &[u8]) -> Arg {
    Arg { regular: Some(v.to_vec()), binary: None }
}

fn binary_ref(v: &[u8]) -> Arg {
    Arg { regular: None, binary: Some(v.to_vec()) }
}

const DIR: &[u8] = b"/data/flasherd";

#[test]
fn uploads_then_spawn_resolves_appended_binary() {
    // Upload twice under one name, then spawn referencing it: the
    // resolved path names the key whose stored content is "ABCDEF".
    let mut session = Session::new(70);
    let mut store = UploadStore::new();
    let dir = DIR.to_vec();

    let a1 = session.intake_step(&mut store, HostOs::Linux, &dir, &upload_msg(b"tool.bin", Some(b"ABC")));
    match a1 {
        IntakeAction::StoredChunk { file_name } => assert_eq!(file_name, b"70_tool.bin"),
        _ => panic!("expected stored chunk"),
    }
    assert_eq!(session.phase(), SessionPhase::Uploading);

    let a2 = session.intake_step(&mut store, HostOs::Linux, &dir, &upload_msg(b"tool.bin", Some(b"DEF")));
    assert!(matches!(a2, IntakeAction::StoredChunk { .. }));
    assert_eq!(store.get(70, &b"tool.bin".to_vec()), Some(&b"ABCDEF".to_vec()));

    let a3 = session.intake_step(
        &mut store,
        HostOs::Linux,
        &dir,
        &spawn_msg(b"flash", vec![binary_ref(b"tool.bin")]),
    );
    match a3 {
        IntakeAction::Spawn(inv) => {
            assert_eq!(inv.program, b"flash");
            assert_eq!(inv.args, vec![b"/data/flasherd/70_tool.bin".to_vec()]);
        },
        _ => panic!("expected spawn"),
    }
    assert_eq!(session.phase(), SessionPhase::Spawning);
}

#[test]
fn missing_chunk_is_a_protocol_error() {
    let mut session = Session::new(70);
    let mut store = UploadStore::new();
    let a = session.intake_step(&mut store, HostOs::Linux, &DIR.to_vec(), &upload_msg(b"t", None));
    assert!(matches!(a, IntakeAction::Fail(ErrorReason::MissingBinaryChunk)));
    assert_eq!(session.phase(), SessionPhase::Terminated);
}

#[test]
fn missing_command_for_host_os_is_a_protocol_error() {
    let mut session = Session::new(70);
    let mut store = UploadStore::new();
    let msg = InboundMessage {
        command_windows: Some(b"cmd".to_vec()),
        ..InboundMessage::default()
    };
    let a = session.intake_step(&mut store, HostOs::Linux, &DIR.to_vec(), &msg);
    assert!(matches!(a, IntakeAction::Fail(ErrorReason::MissingCommand)));
    assert_eq!(session.phase(), SessionPhase::Terminated);
}

#[test]
fn arg_with_both_or_neither_is_rejected_not_spawned() {
    let both = Arg {
        regular: Some(b"x".to_vec()),
        binary: Some(b"y".to_vec()),
    };
    let neither = Arg { regular: None, binary: None };
    assert_eq!(
        resolve_arg(&DIR.to_vec(), 1, &both),
        Err(ErrorReason::ArgNotExclusive)
    );
    assert_eq!(
        resolve_arg(&DIR.to_vec(), 1, &neither),
        Err(ErrorReason::ArgNotExclusive)
    );

    let mut session = Session::new(70);
    let mut store = UploadStore::new();
    let a = session.intake_step(
        &mut store,
        HostOs::Linux,
        &DIR.to_vec(),
        &spawn_msg(b"flash", vec![literal(b"ok"), both]),
    );
    assert!(matches!(a, IntakeAction::Fail(ErrorReason::ArgNotExclusive)));
    assert_eq!(session.phase(), SessionPhase::Terminated);
}

#[test]
fn dangling_binary_reference_still_resolves_then_spawn_failure_is_internal() {
    // No upload happened; resolution performs no existence check, and
    // the later spawn failure surfaces as an internal error.
    let mut session = Session::new(70);
    let mut store = UploadStore::new();
    let a = session.intake_step(
        &mut store,
        HostOs::Linux,
        &DIR.to_vec(),
        &spawn_msg(b"flash", vec![binary_ref(b"never_uploaded")]),
    );
    match a {
        IntakeAction::Spawn(inv) => {
            assert_eq!(inv.args, vec![b"/data/flasherd/70_never_uploaded".to_vec()]);
        },
        _ => panic!("expected spawn"),
    }
    assert_eq!(store.get(70, &b"never_uploaded".to_vec()), None);
    let e = session.on_spawn_failure();
    assert_eq!(e, ErrorReason::SpawnFailed);
    assert_eq!(
        flasherd::protocol::error_class(e),
        flasherd::protocol::ErrorClass::Internal
    );
    assert_eq!(session.phase(), SessionPhase::Terminated);
}

#[test]
fn end_of_stream_before_spawn_is_missing_initial_packets() {
    let mut session = Session::new(70);
    let e = session.intake_end_of_stream();
    assert_eq!(e, ErrorReason::MissingInitialPackets);
    assert_eq!(session.phase(), SessionPhase::Terminated);
}

#[test]
fn inbound_stream_failure_before_spawn_terminates() {
    let mut session = Session::new(70);
    let e = session.intake_stream_error();
    assert_eq!(e, ErrorReason::InitialPacketErr);
    assert_eq!(session.phase(), SessionPhase::Terminated);
}

#[test]
fn echo_session_emits_one_chunk_then_exit_zero() {
    // Spawn `echo hello` with no uploads: one stdout chunk "hello\n",
    // then the terminal exit code 0.
    let mut session = Session::new(70);
    let mut store = UploadStore::new();
    let a = session.intake_step(
        &mut store,
        HostOs::Linux,
        &DIR.to_vec(),
        &spawn_msg(b"echo", vec![literal(b"hello")]),
    );
    match a {
        IntakeAction::Spawn(inv) => {
            assert_eq!(inv.program, b"echo");
            assert_eq!(inv.args, vec![b"hello".to_vec()]);
        },
        _ => panic!("expected spawn"),
    }
    session.process_started();
    assert_eq!(session.phase(), SessionPhase::Bridging);

    let mut log = OutboundLog::new();
    let mut chunker = flasherd::chunk::LineChunker::new();
    for line in chunker.push(&b"hello\n".to_vec()) {
        log.send_stdout(line);
    }
    assert_eq!(chunker.finish(), None);
    session.terminate();
    log.send_exit(map_exit_status(Some(0)));

    let messages = log.into_messages();
    assert_eq!(
        messages,
        vec![
            OutboundMessage::StdoutChunk(b"hello\n".to_vec()),
            OutboundMessage::ExitCode(0),
        ]
    );
}

#[test]
fn stdin_message_with_command_field_ends_the_session_without_exit_code() {
    let mut session = Session::new(70);
    let mut store = UploadStore::new();
    let a = session.intake_step(
        &mut store,
        HostOs::Linux,
        &DIR.to_vec(),
        &spawn_msg(b"cat", vec![]),
    );
    assert!(matches!(a, IntakeAction::Spawn(_)));
    session.process_started();

    let bad = InboundMessage {
        stdin: Some(b"data".to_vec()),
        command_linux: Some(b"rm".to_vec()),
        ..InboundMessage::default()
    };
    let action = session.bridge_inbound(&bad);
    let reason = match action {
        BridgeAction::Fail(e) => e,
        _ => panic!("expected failure"),
    };
    assert_eq!(reason, ErrorReason::StdinCarriesCommand);
    assert_eq!(session.phase(), SessionPhase::Terminated);

    let mut log = OutboundLog::new();
    assert!(log.try_send_error(reason));
    // Racing activities may also try to close: the stream stays as it is.
    assert!(!log.try_send_error(ErrorReason::OutputReadFailed));
    let messages = log.into_messages();
    assert_eq!(messages, vec![OutboundMessage::Error(ErrorReason::StdinCarriesCommand)]);
    assert!(!messages
        .iter()
        .any(|m| matches!(m, OutboundMessage::ExitCode(_))));
}

#[test]
fn valid_stdin_messages_forward_bytes() {
    let mut session = Session::new(70);
    let mut store = UploadStore::new();
    let a = session.intake_step(
        &mut store,
        HostOs::Linux,
        &DIR.to_vec(),
        &spawn_msg(b"cat", vec![]),
    );
    assert!(matches!(a, IntakeAction::Spawn(_)));
    session.process_started();

    let msg = InboundMessage {
        stdin: Some(b"line one\n".to_vec()),
        ..InboundMessage::default()
    };
    match session.bridge_inbound(&msg) {
        BridgeAction::ForwardStdin(b) => assert_eq!(b, b"line one\n"),
        _ => panic!("expected forward"),
    }
    assert_eq!(session.phase(), SessionPhase::Bridging);

    let empty = InboundMessage {
        stdin: None,
        ..InboundMessage::default()
    };
    assert!(matches!(
        session.bridge_inbound(&empty),
        BridgeAction::Fail(ErrorReason::MissingStdin)
    ));
    assert_eq!(session.phase(), SessionPhase::Terminated);
}

#[test]
fn stdin_forwarding_stops_silently_when_the_process_closed_its_input() {
    assert!(stdin_forwarding_continues(StdinWriteOutcome::Written));
    assert!(!stdin_forwarding_continues(StdinWriteOutcome::PeerClosed));
}

#[test]
fn exit_statuses_map_to_final_messages() {
    // A process exiting 254 reports ExitCode(254); one killed by a
    // signal (no status available) reports ExitCode(255).
    let mut log = OutboundLog::new();
    log.send_exit(map_exit_status(Some(254)));
    assert_eq!(
        log.into_messages(),
        vec![OutboundMessage::ExitCode(254)]
    );

    let mut log = OutboundLog::new();
    log.send_stderr(b"killed\n".to_vec());
    log.send_exit(map_exit_status(None));
    let messages = log.into_messages();
    assert_eq!(messages.last(), Some(&OutboundMessage::ExitCode(255)));
}

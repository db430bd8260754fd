//! The per-session protocol state machine and the outbound-stream
//! discipline.
//!
//! A session starts awaiting its first message. Upload messages append
//! chunks to the store and keep the session uploading; the first
//! non-upload message resolves an invocation and moves the session to
//! spawning, then bridging once the process is live. While bridging,
//! inbound messages may carry only raw input bytes. The outbound
//! stream accepts stdout and stderr chunks until a single terminal
//! message — an exit code or an error — closes it; nothing is ever
//! sent after the terminal message.

use crate::bytes::clone_bytes;
use crate::protocol::ErrorReason;
use crate::protocol::HostOs;
use crate::protocol::InboundMessage;
use crate::protocol::OutboundMessage;
use crate::protocol::is_terminal;
use crate::resolve::Invocation;
use crate::resolve::resolve_args;
use crate::resolve::select_command;
use crate::resolve::spec_args_ok;
use crate::resolve::spec_command_field;
use crate::resolve::spec_resolve_arg;
use crate::service::spec_upload_file_name;
use crate::service::upload_file_name;
use crate::uploads::UploadStore;
use vstd::prelude::*;

verus! {

/// The phases a session moves through, in order; `Uploading` may
/// repeat, and any error jumps to `Terminated`.
#[derive(Clone, Copy, Debug, PartialEq, Eq, Structural)]
pub enum SessionPhase {
    AwaitingFirstMessage,
    Uploading,
    Spawning,
    Bridging,
    Terminated,
}

/// What one intake step asks the surrounding process to do.
pub enum IntakeAction {
    /// A chunk was appended to the store; mirror it into the durable
    /// file of this name.
    StoredChunk { file_name: Vec<u8> },
    /// The spawn-triggering message resolved; launch this invocation
    /// with all three standard I/O channels captured.
    Spawn(Invocation),
    /// Protocol error: report it and close the outbound stream.
    Fail(ErrorReason),
}

/// What one bridging step asks the surrounding process to do.
pub enum BridgeAction {
    /// Write these bytes to the process's input channel.
    ForwardStdin(Vec<u8>),
    /// Protocol error: report it and close the outbound stream.
    Fail(ErrorReason),
}

/// How a write to the process's input channel went. A failed write
/// means the process already closed its input — expected termination
/// behaviour, not a fault.
#[derive(Clone, Copy, Debug, PartialEq, Eq, Structural)]
pub enum StdinWriteOutcome {
    Written,
    PeerClosed,
}

/// Whether the input-forwarding activity goes on after a write: it
/// stops, silently and without an error report, once the process has
/// closed its input.
pub fn stdin_forwarding_continues(outcome: StdinWriteOutcome) -> (cont: bool)
    ensures
        cont <==> outcome == StdinWriteOutcome::Written,
{
    match outcome {
        StdinWriteOutcome::Written => true,
        StdinWriteOutcome::PeerClosed => false,
    }
}

/// Whether a message is an upload message: it names a binary.
pub open spec fn spec_is_upload(m: InboundMessage) -> bool {
    m.binary_name is Some
}

/// Whether a message carries any command material: an OS command field
/// or a non-empty argument list. After the spawn, such a message is a
/// protocol violation.
pub open spec fn spec_carries_command(m: InboundMessage) -> bool {
    ||| m.command_windows is Some
    ||| m.command_linux is Some
    ||| m.command_macos is Some
    ||| m.args.len() > 0
}

/// One client session: its identifier and protocol phase. A session
/// resolves at most one invocation; the intake step demands a
/// pre-spawn phase and only the spawn action leaves it, so a session
/// can never spawn twice.
pub struct Session {
    session_id: u64,
    phase: SessionPhase,
}

impl Session {
    /// The session's identifier.
    pub closed spec fn spec_id(&self) -> u64 {
        self.session_id
    }

    /// The session's protocol phase.
    pub closed spec fn spec_phase(&self) -> SessionPhase {
        self.phase
    }

    pub open spec fn pre_spawn(&self) -> bool {
        self.spec_phase() == SessionPhase::AwaitingFirstMessage || self.spec_phase()
            == SessionPhase::Uploading
    }

    /// A fresh session under an allocated identifier.
    pub fn new(session_id: u64) -> (s: Session)
        ensures
            s.spec_id() == session_id,
            s.spec_phase() == SessionPhase::AwaitingFirstMessage,
    {
        Session { session_id, phase: SessionPhase::AwaitingFirstMessage }
    }

    pub fn id(&self) -> (r: u64)
        ensures
            r == self.spec_id(),
    {
        self.session_id
    }

    pub fn phase(&self) -> (p: SessionPhase)
        ensures
            p == self.spec_phase(),
    {
        self.phase
    }

    /// Interprets one inbound message before the spawn. An upload
    /// message appends its chunk to the store; only a *missing* chunk
    /// is a protocol error — a present but empty chunk is accepted and
    /// appends nothing, a deliberate choice, as the protocol defines
    /// no error for it. The first non-upload message resolves the
    /// invocation for the host OS or fails with the exact protocol
    /// error resolution gives.
    pub fn intake_step(
        &mut self,
        store: &mut UploadStore,
        os: HostOs,
        dir: &Vec<u8>,
        msg: &InboundMessage,
    ) -> (action: IntakeAction)
        requires
            old(self).pre_spawn(),
        ensures
            final(self).spec_id() == old(self).spec_id(),
            spec_is_upload(*msg) ==> match msg.binary_chunk {
                Some(chunk) => {
                    &&& action matches IntakeAction::StoredChunk { file_name } && file_name@
                        == spec_upload_file_name(old(self).spec_id(), msg.binary_name->0@)
                    &&& final(self).spec_phase() == SessionPhase::Uploading
                    &&& final(store).stored(old(self).spec_id(), msg.binary_name->0@) == Some(
                        (match old(store).stored(old(self).spec_id(), msg.binary_name->0@) {
                            Some(prior) => prior,
                            None => Seq::<u8>::empty(),
                        }) + chunk@,
                    )
                    &&& forall|id2: u64, n2: Seq<u8>|
                        !(id2 == old(self).spec_id() && n2 == msg.binary_name->0@)
                            ==> #[trigger] final(store).stored(id2, n2) == old(store).stored(
                            id2,
                            n2,
                        )
                },
                None => {
                    &&& action matches IntakeAction::Fail(e) && e == ErrorReason::MissingBinaryChunk
                    &&& final(self).spec_phase() == SessionPhase::Terminated
                    &&& *final(store) == *old(store)
                },
            },
            !spec_is_upload(*msg) ==> {
                &&& *final(store) == *old(store)
                &&& match spec_command_field(os, *msg) {
                    None => {
                        &&& action matches IntakeAction::Fail(e) && e == ErrorReason::MissingCommand
                        &&& final(self).spec_phase() == SessionPhase::Terminated
                    },
                    Some(cmd) => {
                        if spec_args_ok(dir@, old(self).spec_id(), msg.args@) {
                            &&& action matches IntakeAction::Spawn(inv) && inv.program@ == cmd@
                                && inv.args@.len() == msg.args@.len() && (forall|i: int|
                                0 <= i < msg.args@.len() ==> spec_resolve_arg(
                                    dir@,
                                    old(self).spec_id(),
                                    msg.args@[i],
                                ) == Some((#[trigger] inv.args@[i])@))
                            &&& final(self).spec_phase() == SessionPhase::Spawning
                        } else {
                            &&& action matches IntakeAction::Fail(e) && e
                                == ErrorReason::ArgNotExclusive
                            &&& final(self).spec_phase() == SessionPhase::Terminated
                        }
                    },
                }
            },
    {
        if let Some(name) = &msg.binary_name {
            if let Some(chunk) = &msg.binary_chunk {
                store.append(self.session_id, name, chunk);
                self.phase = SessionPhase::Uploading;
                IntakeAction::StoredChunk { file_name: upload_file_name(self.session_id, name) }
            } else {
                self.phase = SessionPhase::Terminated;
                IntakeAction::Fail(ErrorReason::MissingBinaryChunk)
            }
        } else {
            match select_command(os, msg) {
                Err(e) => {
                    self.phase = SessionPhase::Terminated;
                    IntakeAction::Fail(e)
                },
                Ok(program) => {
                    match resolve_args(dir, self.session_id, &msg.args) {
                        Err(e) => {
                            self.phase = SessionPhase::Terminated;
                            IntakeAction::Fail(e)
                        },
                        Ok(args) => {
                            self.phase = SessionPhase::Spawning;
                            IntakeAction::Spawn(Invocation { program, args })
                        },
                    }
                },
            }
        }
    }

    /// The inbound stream ended before any spawn-triggering message:
    /// the session fails with the missing-initial-packets protocol
    /// error.
    pub fn intake_end_of_stream(&mut self) -> (e: ErrorReason)
        requires
            old(self).pre_spawn(),
        ensures
            final(self).spec_id() == old(self).spec_id(),
            final(self).spec_phase() == SessionPhase::Terminated,
            e == ErrorReason::MissingInitialPackets,
    {
        self.phase = SessionPhase::Terminated;
        ErrorReason::MissingInitialPackets
    }

    /// The inbound stream itself failed before any spawn-triggering
    /// message.
    pub fn intake_stream_error(&mut self) -> (e: ErrorReason)
        requires
            old(self).pre_spawn(),
        ensures
            final(self).spec_id() == old(self).spec_id(),
            final(self).spec_phase() == SessionPhase::Terminated,
            e == ErrorReason::InitialPacketErr,
    {
        self.phase = SessionPhase::Terminated;
        ErrorReason::InitialPacketErr
    }

    /// The resolved invocation is running with its three standard I/O
    /// channels captured: bridging begins.
    pub fn process_started(&mut self)
        requires
            old(self).spec_phase() == SessionPhase::Spawning,
        ensures
            final(self).spec_id() == old(self).spec_id(),
            final(self).spec_phase() == SessionPhase::Bridging,
    {
        self.phase = SessionPhase::Bridging;
    }

    /// The resolved invocation could not be launched: the session
    /// terminates with an internal error, never entering bridging.
    pub fn on_spawn_failure(&mut self) -> (e: ErrorReason)
        requires
            old(self).spec_phase() == SessionPhase::Spawning,
        ensures
            final(self).spec_id() == old(self).spec_id(),
            final(self).spec_phase() == SessionPhase::Terminated,
            e == ErrorReason::SpawnFailed,
    {
        self.phase = SessionPhase::Terminated;
        ErrorReason::SpawnFailed
    }

    /// Interprets one inbound message while the process runs. Only a
    /// raw input chunk is valid: command material is a protocol
    /// violation, and so is a message carrying neither command nor
    /// input bytes.
    pub fn bridge_inbound(&mut self, msg: &InboundMessage) -> (action: BridgeAction)
        requires
            old(self).spec_phase() == SessionPhase::Bridging,
        ensures
            final(self).spec_id() == old(self).spec_id(),
            if spec_carries_command(*msg) {
                &&& action matches BridgeAction::Fail(e) && e == ErrorReason::StdinCarriesCommand
                &&& final(self).spec_phase() == SessionPhase::Terminated
            } else {
                match msg.stdin {
                    None => {
                        &&& action matches BridgeAction::Fail(e) && e == ErrorReason::MissingStdin
                        &&& final(self).spec_phase() == SessionPhase::Terminated
                    },
                    Some(bytes) => {
                        &&& action matches BridgeAction::ForwardStdin(b) && b@ == bytes@
                        &&& final(self).spec_phase() == SessionPhase::Bridging
                    },
                }
            },
    {
        let has_command = msg.command_windows.is_some() || msg.command_linux.is_some()
            || msg.command_macos.is_some() || msg.args.len() > 0;
        if has_command {
            self.phase = SessionPhase::Terminated;
            BridgeAction::Fail(ErrorReason::StdinCarriesCommand)
        } else {
            match &msg.stdin {
                None => {
                    self.phase = SessionPhase::Terminated;
                    BridgeAction::Fail(ErrorReason::MissingStdin)
                },
                Some(bytes) => BridgeAction::ForwardStdin(clone_bytes(bytes)),
            }
        }
    }

    /// The process terminated (or bridging ended in an error report):
    /// the session is over.
    pub fn terminate(&mut self)
        ensures
            final(self).spec_id() == old(self).spec_id(),
            final(self).spec_phase() == SessionPhase::Terminated,
    {
        self.phase = SessionPhase::Terminated;
    }
}

/// The session's outbound message stream. Producers push stdout and
/// stderr chunks while it is open; exactly one terminal message — an
/// exit code or an error — closes it, and a closed stream accepts
/// nothing further.
pub struct OutboundLog {
    messages: Vec<OutboundMessage>,
    closed: bool,
}

impl OutboundLog {
    /// Every message sent so far, in order.
    pub closed spec fn log(&self) -> Seq<OutboundMessage> {
        self.messages@
    }

    /// Whether the stream was closed by a terminal message.
    pub closed spec fn is_closed(&self) -> bool {
        self.closed
    }

    /// The stream's discipline: no message other than the last is
    /// terminal, and the stream is closed exactly when a terminal
    /// message ended it.
    pub open spec fn wf(&self) -> bool {
        &&& forall|i: int| 0 <= i < self.log().len() - 1 ==> !is_terminal(#[trigger] self.log()[i])
        &&& self.is_closed() <==> (self.log().len() > 0 && is_terminal(self.log().last()))
    }

    pub fn new() -> (s: Self)
        ensures
            s.wf(),
            s.log() =~= Seq::<OutboundMessage>::empty(),
            !s.is_closed(),
    {
        OutboundLog { messages: Vec::new(), closed: false }
    }

    /// Hands the accumulated messages over, consuming the log.
    pub fn into_messages(self) -> (v: Vec<OutboundMessage>)
        ensures
            v@ == self.log(),
    {
        self.messages
    }

    pub fn send_stdout(&mut self, chunk: Vec<u8>)
        requires
            old(self).wf(),
            !old(self).is_closed(),
        ensures
            final(self).wf(),
            !final(self).is_closed(),
            final(self).log() == old(self).log().push(OutboundMessage::StdoutChunk(chunk)),
    {
        self.messages.push(OutboundMessage::StdoutChunk(chunk));
    }

    pub fn send_stderr(&mut self, chunk: Vec<u8>)
        requires
            old(self).wf(),
            !old(self).is_closed(),
        ensures
            final(self).wf(),
            !final(self).is_closed(),
            final(self).log() == old(self).log().push(OutboundMessage::StderrChunk(chunk)),
    {
        self.messages.push(OutboundMessage::StderrChunk(chunk));
    }

    /// Emits the single exit-code message and closes the stream.
    pub fn send_exit(&mut self, code: u8)
        requires
            old(self).wf(),
            !old(self).is_closed(),
        ensures
            final(self).wf(),
            final(self).is_closed(),
            final(self).log() == old(self).log().push(OutboundMessage::ExitCode(code)),
    {
        self.messages.push(OutboundMessage::ExitCode(code));
        self.closed = true;
    }

    /// Emits the single error message and closes the stream.
    pub fn send_error(&mut self, reason: ErrorReason)
        requires
            old(self).wf(),
            !old(self).is_closed(),
        ensures
            final(self).wf(),
            final(self).is_closed(),
            final(self).log() == old(self).log().push(OutboundMessage::Error(reason)),
    {
        self.messages.push(OutboundMessage::Error(reason));
        self.closed = true;
    }

    /// Error reporting tolerant of races: several activities may
    /// detect faults concurrently, and only the first reaches the
    /// stream; closing an already-closed stream is a no-op.
    pub fn try_send_error(&mut self, reason: ErrorReason) -> (sent: bool)
        requires
            old(self).wf(),
        ensures
            final(self).wf(),
            final(self).is_closed(),
            if old(self).is_closed() {
                !sent && final(self).log() == old(self).log()
            } else {
                sent && final(self).log() == old(self).log().push(OutboundMessage::Error(reason))
            },
    {
        if self.closed {
            false
        } else {
            self.messages.push(OutboundMessage::Error(reason));
            self.closed = true;
            true
        }
    }
}

/// In a well-formed outbound log, any terminal message is the last
/// message: nothing is ever sent after an exit code or an error, so at
/// most one terminal message exists.
pub proof fn lemma_terminal_is_last(lg: OutboundLog, i: int)
    requires
        lg.wf(),
        0 <= i < lg.log().len(),
        is_terminal(lg.log()[i]),
    ensures
        i == lg.log().len() - 1,
{
}

} // verus!
